//! The calls that the renderer makes.
use ruffle::backend::{
    Bitmap, BitmapFormat, BitmapHandle, Letterbox, MaskState, MsaaBuffers, ShapeHandle, Texture,
    WebGlRenderBackend,
};
use ruffle::context::ContextChoice;
use ruffle::float::FloatBits;
use ruffle::geometry::{vec4, Color, ColorTransform, Matrix, Matrix3, Matrix4, Transform, Vec4};
use ruffle::gl::{
    BlendFactor, Capability, ErrorSite, FramebufferTarget, GlCommand, GlError, GlName, GlOp,
    OnFailure, ResourceKind, TextureFormat, TextureParameter, TextureSetting, Uncreated,
    VertexArrayApi,
};
use ruffle::mesh::{
    BitmapDraw, DrawNames, GradientInterpolation, GradientSpread, GradientType, TessDraw,
    TessDrawType, TessGradient,
};
use ruffle::shader::{ShaderProgram, NUM_UNIFORMS};

fn number(value: f32) -> FloatBits {
    FloatBits { bits: value.to_bits() }
}

fn name(id: u64) -> GlName {
    GlName { id }
}

/// A program whose uniforms have locations with consecutive names.
fn program(id: u64) -> ShaderProgram {
    let mut uniforms = [None; NUM_UNIFORMS];
    for i in 0..NUM_UNIFORMS {
        uniforms[i] = Some(name(id * 100 + i as u64));
    }
    ShaderProgram::new(name(id), uniforms, 0, 1)
}

fn location(id: u64, position: u64) -> Option<GlName> {
    Some(name(id * 100 + position))
}

const COLOR: u64 = 1;
const BITMAP: u64 = 2;
const GRADIENT: u64 = 3;

fn quad_names() -> DrawNames {
    DrawNames { vao: name(11), vertex_buffer: name(12), index_buffer: name(13) }
}

fn draw_names(first: u64) -> DrawNames {
    DrawNames { vao: name(first), vertex_buffer: name(first + 1), index_buffer: name(first + 2) }
}

fn msaa_names(first: u64) -> MsaaBuffers {
    MsaaBuffers {
        color_renderbuffer: name(first),
        stencil_renderbuffer: name(first + 1),
        render_framebuffer: name(first + 2),
        color_framebuffer: name(first + 3),
        framebuffer_texture: name(first + 4),
    }
}

fn backend(api: VertexArrayApi, samples: u32) -> WebGlRenderBackend {
    WebGlRenderBackend::new(
        ContextChoice { api, msaa_sample_count: samples },
        program(COLOR),
        program(BITMAP),
        program(GRADIENT),
        quad_names(),
        number(1.0 / (500.0 / 2.0)),
        number(-1.0 / (500.0 / 2.0)),
    )
    .0
}

fn transform(add: f32) -> Transform {
    Transform {
        matrix: Matrix {
            a: number(2.0),
            b: number(3.0),
            c: number(4.0),
            d: number(5.0),
            tx: number(6.0),
            ty: number(7.0),
        },
        color_transform: ColorTransform {
            r_mult: number(0.5),
            g_mult: number(0.25),
            b_mult: number(1.0),
            a_mult: number(0.75),
            r_add: number(add),
            g_add: number(0.0),
            b_add: number(0.0),
            a_add: number(0.0),
        },
    }
}

fn world() -> Matrix4 {
    matrix4([
        [2.0, 3.0, 0.0, 0.0],
        [4.0, 5.0, 0.0, 0.0],
        [0.0, 0.0, 1.0, 0.0],
        [6.0, 7.0, 0.0, 1.0],
    ])
}

fn vector(values: [f32; 4]) -> Vec4 {
    vec4(number(values[0]), number(values[1]), number(values[2]), number(values[3]))
}

fn matrix4(columns: [[f32; 4]; 4]) -> Matrix4 {
    Matrix4 {
        c0: vector(columns[0]),
        c1: vector(columns[1]),
        c2: vector(columns[2]),
        c3: vector(columns[3]),
    }
}

fn view_matrix(width: f32, height: f32) -> Matrix4 {
    matrix4([
        [1.0 / (width / 2.0), 0.0, 0.0, 0.0],
        [0.0, -1.0 / (height / 2.0), 0.0, 0.0],
        [0.0, 0.0, 1.0, 0.0],
        [-1.0, 1.0, 0.0, 1.0],
    ])
}

fn ops(commands: &[GlCommand]) -> Vec<GlOp> {
    let mut ops = Vec::new();
    for command in commands {
        match command {
            GlCommand::Op(op) => ops.push(*op),
            other => panic!("{:?}", other),
        }
    }
    ops
}

fn color_draw() -> TessDraw {
    TessDraw { draw_type: TessDrawType::Color, vertices: vec![], indices: vec![0, 1, 2] }
}

fn bitmap_draw(id: u16, is_smoothed: bool, is_repeating: bool) -> TessDraw {
    TessDraw {
        draw_type: TessDrawType::Bitmap(BitmapDraw {
            matrix: Matrix3::identity(),
            id,
            is_smoothed,
            is_repeating,
        }),
        vertices: vec![],
        indices: vec![0, 1, 2, 3, 4, 5],
    }
}

fn gradient_draw() -> TessDraw {
    TessDraw {
        draw_type: TessDrawType::Gradient(TessGradient {
            matrix: Matrix3::identity(),
            gradient_type: GradientType::Focal,
            ratios: vec![number(0.25)],
            colors: vec![vector([0.1, 0.2, 0.3, 0.4])],
            linear_colors: vec![vector([0.5, 0.6, 0.7, 0.8])],
            num_colors: 1,
            repeat_mode: GradientSpread::Reflect,
            focal_point: number(0.125),
            interpolation: GradientInterpolation::LinearRgb,
        }),
        vertices: vec![],
        indices: vec![0, 1, 2],
    }
}

fn register_texture(backend: &mut WebGlRenderBackend, id: u16, width: u32, texture: u64) -> usize {
    let info = backend
        .register_bitmap(id, Texture { width, height: 20, texture: name(texture) }, Ok(()))
        .unwrap();
    info.handle.index
}

fn unmasked() -> [GlOp; 2] {
    [GlOp::Disable(Capability::StencilTest), GlOp::ColorMask(true)]
}

#[test]
fn a_new_renderer_sets_up_the_graphics_library() {
    let (backend, commands) = WebGlRenderBackend::new(
        ContextChoice { api: VertexArrayApi::WebGl2, msaa_sample_count: 4 },
        program(COLOR),
        program(BITMAP),
        program(GRADIENT),
        quad_names(),
        number(1.0 / (500.0 / 2.0)),
        number(-1.0 / (500.0 / 2.0)),
    );
    assert_eq!(
        ops(&commands[..6]),
        vec![
            GlOp::Enable(Capability::Blend),
            GlOp::BlendFunc(BlendFactor::SrcAlpha, BlendFactor::OneMinusSrcAlpha),
            GlOp::UnpackAlignment(1),
            GlOp::Create {
                kind: ResourceKind::VertexArray(VertexArrayApi::WebGl2),
                name: name(11),
                on_failure: OnFailure::Error(Uncreated::VertexArray),
            },
            GlOp::BindVertexArray(VertexArrayApi::WebGl2, Some(name(11))),
            GlOp::Create {
                kind: ResourceKind::Buffer,
                name: name(12),
                on_failure: OnFailure::Panic,
            },
        ]
    );
    match &commands[7] {
        GlCommand::BufferData { bytes, .. } => {
            assert_eq!(bytes.len(), 48);
            assert_eq!(bytes[12..16], 1.0f32.to_le_bytes());
            assert_eq!(bytes[8..12], [0xff; 4]);
        }
        other => panic!("{:?}", other),
    }
    match &commands[10] {
        GlCommand::BufferData { bytes, .. } => {
            assert_eq!(*bytes, vec![0, 0, 1, 0, 2, 0, 0, 0, 2, 0, 3, 0]);
        }
        other => panic!("{:?}", other),
    }
    assert_eq!(commands.len(), 15);
    assert_eq!(backend.view_matrix, view_matrix(500.0, 500.0));
    assert_eq!(backend.viewport_width, number(500.0));
    assert_eq!(backend.quad_shape, ShapeHandle { index: 0 });
    assert_eq!(backend.mask_state, MaskState::NoMask);
    assert!(backend.msaa_buffers.is_none());
}

#[test]
fn frame_buffers_are_not_built_without_msaa() {
    let without = vec![
        GlOp::BindFramebuffer(FramebufferTarget::Framebuffer, None),
        GlOp::BindRenderbuffer(None),
    ];
    for (api, samples) in [(VertexArrayApi::Extension, 4), (VertexArrayApi::WebGl2, 1)] {
        let mut backend = backend(api, samples);
        assert_eq!(ops(&backend.build_msaa_buffers(msaa_names(50))), without);
        backend.msaa_buffers_built(msaa_names(50), Ok(())).unwrap();
        assert!(backend.msaa_buffers.is_none());
    }
}

#[test]
fn frame_buffers_are_built_for_msaa() {
    let mut backend = backend(VertexArrayApi::WebGl2, 4);
    let commands = backend.build_msaa_buffers(msaa_names(50));
    let first = ops(&commands[..6]);
    assert_eq!(
        first[0],
        GlOp::Create {
            kind: ResourceKind::Framebuffer,
            name: name(52),
            on_failure: OnFailure::Error(Uncreated::Framebuffer),
        }
    );
    assert_eq!(first[3], GlOp::BindRenderbuffer(Some(name(50))));
    assert_eq!(first[5], GlOp::CheckError(ErrorSite::ColorStorage));
    match &commands[19] {
        GlCommand::TexImage2d { format, width, height, pixels } => {
            assert_eq!(*format, TextureFormat::Rgb);
            assert_eq!((*width, *height), (500, 500));
            assert!(pixels.is_none());
        }
        other => panic!("{:?}", other),
    }
    assert_eq!(
        ops(&commands[20..]),
        vec![
            GlOp::BindTexture(None),
            GlOp::BindFramebuffer(FramebufferTarget::Framebuffer, Some(name(53))),
            GlOp::FramebufferTexture2d(name(54)),
            GlOp::BindFramebuffer(FramebufferTarget::Framebuffer, None),
        ]
    );
    assert!(backend.msaa_buffers.is_none());
    backend.msaa_buffers_built(msaa_names(50), Ok(())).unwrap();
    assert_eq!(backend.msaa_buffers, Some(msaa_names(50)));
}

#[test]
fn frame_buffers_that_were_there_are_deleted() {
    let mut backend = backend(VertexArrayApi::WebGl2, 2);
    backend.build_msaa_buffers(msaa_names(50));
    backend.msaa_buffers_built(msaa_names(50), Ok(())).unwrap();
    let commands =
        backend.set_viewport_dimensions(640, 480, msaa_names(60), number(0.5), number(-0.5));
    assert_eq!(
        ops(&commands[..6]),
        vec![
            GlOp::Viewport { x: 0, y: 0, width: 640, height: 480 },
            GlOp::DeleteRenderbuffer(name(50)),
            GlOp::DeleteRenderbuffer(name(51)),
            GlOp::DeleteFramebuffer(name(52)),
            GlOp::DeleteFramebuffer(name(53)),
            GlOp::DeleteTexture(name(54)),
        ]
    );
    let mut live: Vec<u64> = vec![50, 51, 52, 53, 54, 99];
    for command in &commands {
        match command {
            GlCommand::Op(GlOp::Create { name, .. }) => live.push(name.id),
            GlCommand::Op(GlOp::DeleteRenderbuffer(name)) => live.retain(|id| *id != name.id),
            GlCommand::Op(GlOp::DeleteFramebuffer(name)) => live.retain(|id| *id != name.id),
            GlCommand::Op(GlOp::DeleteTexture(name)) => live.retain(|id| *id != name.id),
            _ => {}
        }
    }
    live.sort();
    assert_eq!(live, vec![60, 61, 62, 63, 64, 99]);
    assert_eq!(backend.viewport_width, number(640.0));
    assert_eq!(backend.viewport_height, number(480.0));
    assert_eq!(backend.view_matrix.c0.x, number(0.5));
}

#[test]
fn frame_buffers_that_cannot_be_built_are_not_there() {
    let mut backend = backend(VertexArrayApi::WebGl2, 4);
    backend.build_msaa_buffers(msaa_names(50));
    let error = GlError::UnableToCreate(Uncreated::Renderbuffer);
    let result = backend.msaa_buffers_built(msaa_names(50), Err(error));
    assert_eq!(result.unwrap_err().message(), "Unable to create renderbuffer");
    assert!(backend.msaa_buffers.is_none());
}

#[test]
fn the_view_matrix_takes_pixels_to_the_screen() {
    let mut backend = backend(VertexArrayApi::Extension, 1);
    let (width, height) = (640.0f32, 360.0f32);
    backend.build_matrices(number(1.0 / (width / 2.0)), number(-1.0 / (height / 2.0)));
    assert_eq!(backend.view_matrix, view_matrix(640.0, 360.0));
}

#[test]
fn shapes_are_registered_and_drawn() {
    let mut backend = backend(VertexArrayApi::WebGl2, 1);
    let (handle, commands) = backend.register_shape(&vec![color_draw()], &vec![draw_names(20)]);
    assert_eq!(handle, ShapeHandle { index: 1 });
    assert_eq!(commands.len(), 13);
    assert_eq!(
        ops(&commands[12..]),
        vec![GlOp::BindVertexArray(VertexArrayApi::WebGl2, None)]
    );
    let drawn = ops(&backend.render_shape(handle, &transform(0.0)));
    assert_eq!(
        drawn,
        vec![
            unmasked()[0],
            unmasked()[1],
            GlOp::BindVertexArray(VertexArrayApi::WebGl2, Some(name(20))),
            GlOp::UseProgram(name(COLOR)),
            GlOp::UniformMatrix4(location(COLOR, 1), view_matrix(500.0, 500.0)),
            GlOp::UniformMatrix4(location(COLOR, 0), world()),
            GlOp::Uniform4f(location(COLOR, 2), vector([0.5, 0.25, 1.0, 0.75])),
            GlOp::Uniform4f(location(COLOR, 3), vector([0.0, 0.0, 0.0, 0.0])),
            GlOp::DrawElements { count: 3 },
        ]
    );
}

#[test]
fn state_that_is_set_is_not_set_again() {
    let mut backend = backend(VertexArrayApi::WebGl2, 1);
    let (handle, _) = backend.register_shape(&vec![color_draw()], &vec![draw_names(20)]);
    backend.render_shape(handle, &transform(0.0));
    let bind = GlOp::BindVertexArray(VertexArrayApi::WebGl2, Some(name(20)));
    let place = GlOp::UniformMatrix4(location(COLOR, 0), world());
    let draw = GlOp::DrawElements { count: 3 };
    // The colors are equal as numbers, so they are not handed over again.
    assert_eq!(
        ops(&backend.render_shape(handle, &transform(-0.0))),
        vec![unmasked()[0], unmasked()[1], bind, place, draw]
    );
    assert_eq!(
        ops(&backend.render_shape(handle, &transform(3.0))),
        vec![
            unmasked()[0],
            unmasked()[1],
            bind,
            place,
            GlOp::Uniform4f(location(COLOR, 3), vector([3.0, 0.0, 0.0, 0.0])),
            draw,
        ]
    );
}

#[test]
fn not_a_number_is_always_set_again() {
    let mut backend = backend(VertexArrayApi::WebGl2, 1);
    let (handle, _) = backend.register_shape(&vec![color_draw()], &vec![draw_names(20)]);
    backend.render_shape(handle, &transform(f32::NAN));
    let again = backend.render_shape(handle, &transform(f32::NAN));
    assert_eq!(again.len(), 6);
}

#[test]
fn a_frame_forgets_what_is_set() {
    let mut backend = backend(VertexArrayApi::WebGl2, 1);
    let (handle, _) = backend.register_shape(&vec![color_draw()], &vec![draw_names(20)]);
    let first = ops(&backend.render_shape(handle, &transform(0.0)));
    backend.end_frame();
    backend.begin_frame(vector([0.0, 0.0, 0.0, 1.0]));
    assert_eq!(ops(&backend.render_shape(handle, &transform(0.0))), first);
}

#[test]
fn shapes_are_replaced() {
    let mut backend = backend(VertexArrayApi::WebGl2, 1);
    let (handle, _) = backend.register_shape(&vec![color_draw()], &vec![draw_names(20)]);
    let (other, _) = backend.register_shape(&vec![color_draw()], &vec![draw_names(30)]);
    backend.replace_shape(
        &vec![color_draw(), color_draw()],
        &vec![draw_names(40), draw_names(44)],
        handle,
    );
    let drawn = ops(&backend.render_shape(handle, &transform(0.0)));
    assert!(drawn.contains(&GlOp::BindVertexArray(VertexArrayApi::WebGl2, Some(name(40)))));
    assert!(drawn.contains(&GlOp::BindVertexArray(VertexArrayApi::WebGl2, Some(name(44)))));
    assert!(!drawn.contains(&GlOp::BindVertexArray(VertexArrayApi::WebGl2, Some(name(20)))));
    let drawn = ops(&backend.render_shape(other, &transform(0.0)));
    assert!(drawn.contains(&GlOp::BindVertexArray(VertexArrayApi::WebGl2, Some(name(30)))));
}

#[test]
fn gradients_are_described_to_their_program() {
    let mut backend = backend(VertexArrayApi::WebGl2, 1);
    let (handle, _) = backend.register_shape(&vec![gradient_draw()], &vec![draw_names(20)]);
    let commands = backend.render_shape(handle, &transform(0.0));
    let mut ratios = Vec::new();
    let mut colors = Vec::new();
    for _ in 0..15 {
        ratios.push(number(0.25));
        for channel in [0.5, 0.6, 0.7, 0.8] {
            colors.push(number(channel));
        }
    }
    let expected = vec![
        GlCommand::Op(GlOp::UniformMatrix3(location(GRADIENT, 4), Matrix3::identity())),
        GlCommand::Op(GlOp::Uniform1i(location(GRADIENT, 5), 2)),
        GlCommand::Uniform1fv { location: location(GRADIENT, 6), values: ratios },
        GlCommand::Uniform4fv { location: location(GRADIENT, 7), values: colors },
        GlCommand::Op(GlOp::Uniform1i(location(GRADIENT, 8), 1)),
        GlCommand::Op(GlOp::Uniform1i(location(GRADIENT, 9), 2)),
        GlCommand::Op(GlOp::Uniform1f(location(GRADIENT, 10), number(0.125))),
        GlCommand::Op(GlOp::Uniform1i(location(GRADIENT, 11), 1)),
        GlCommand::Op(GlOp::DrawElements { count: 3 }),
    ];
    assert_eq!(format!("{:?}", &commands[8..]), format!("{:?}", &expected[..]));
}

#[test]
fn bitmaps_are_loaded() {
    let bitmap = Bitmap { width: 2, height: 1, data: BitmapFormat::Rgba(vec![1; 8]) };
    let commands = WebGlRenderBackend::load_bitmap(bitmap, name(70));
    let expected = vec![
        GlCommand::Op(GlOp::Create {
            kind: ResourceKind::Texture,
            name: name(70),
            on_failure: OnFailure::Panic,
        }),
        GlCommand::Op(GlOp::BindTexture(Some(name(70)))),
        GlCommand::TexImage2d {
            format: TextureFormat::Rgba,
            width: 2,
            height: 1,
            pixels: Some(vec![1; 8]),
        },
        GlCommand::Op(GlOp::TexParameter(TextureParameter::WrapS, TextureSetting::ClampToEdge)),
        GlCommand::Op(GlOp::TexParameter(TextureParameter::WrapT, TextureSetting::ClampToEdge)),
        GlCommand::Op(GlOp::TexParameter(TextureParameter::MinFilter, TextureSetting::Linear)),
        GlCommand::Op(GlOp::TexParameter(TextureParameter::MagFilter, TextureSetting::Linear)),
    ];
    assert_eq!(format!("{:?}", commands), format!("{:?}", expected));
    let bitmap = Bitmap { width: 1, height: 1, data: BitmapFormat::Rgb(vec![9, 8, 7]) };
    let commands = WebGlRenderBackend::load_bitmap(bitmap, name(71));
    assert!(matches!(
        &commands[2],
        GlCommand::TexImage2d { format: TextureFormat::Rgb, pixels: Some(data), .. }
            if *data == vec![9, 8, 7]
    ));
}

#[test]
fn bitmaps_are_registered_unless_loading_failed() {
    let mut backend = backend(VertexArrayApi::WebGl2, 1);
    let texture = Texture { width: 70_000, height: 20, texture: name(70) };
    let info = backend.register_bitmap(5, texture, Ok(())).unwrap();
    assert_eq!(info.handle, BitmapHandle { index: 0 });
    assert_eq!(info.width, 4_464);
    assert_eq!(info.height, 20);
    assert_eq!(backend.bitmap_size(info.handle), Some((70_000, 20)));
    assert_eq!(backend.bitmap_size(BitmapHandle { index: 1 }), None);
    assert_eq!(backend.bitmap_size_by_id(5), Some((70_000, 20)));
    assert_eq!(backend.bitmap_size_by_id(6), None);
    let failed = backend.register_bitmap(6, texture, Err(GlError::Exception("no".to_string())));
    assert_eq!(failed.unwrap_err().message(), "no");
    assert_eq!(backend.bitmap_size_by_id(6), None);
    assert_eq!(backend.textures.len(), 1);
}

#[test]
fn the_first_bitmap_under_a_number_is_found() {
    let mut backend = backend(VertexArrayApi::WebGl2, 1);
    register_texture(&mut backend, 5, 10, 70);
    register_texture(&mut backend, 5, 11, 71);
    register_texture(&mut backend, 6, 12, 72);
    assert_eq!(backend.bitmap_size_by_id(5), Some((10, 20)));
    assert_eq!(backend.bitmap_size_by_id(6), Some((12, 20)));
}

#[test]
fn bitmap_fills_bind_their_texture() {
    let mut backend = backend(VertexArrayApi::WebGl2, 1);
    register_texture(&mut backend, 5, 10, 70);
    let shape = vec![bitmap_draw(5, false, true)];
    let (handle, _) = backend.register_shape(&shape, &vec![draw_names(20)]);
    let drawn = ops(&backend.render_shape(handle, &transform(0.0)));
    assert_eq!(
        drawn[3..6],
        [
            GlOp::UseProgram(name(BITMAP)),
            GlOp::UniformMatrix4(location(BITMAP, 1), view_matrix(500.0, 500.0)),
            GlOp::BlendFunc(BlendFactor::One, BlendFactor::OneMinusSrcAlpha),
        ]
    );
    assert_eq!(
        drawn[9..],
        [
            GlOp::UniformMatrix3(location(BITMAP, 4), Matrix3::identity()),
            GlOp::ActiveTexture0,
            GlOp::BindTexture(Some(name(70))),
            GlOp::Uniform1i(location(BITMAP, 12), 0),
            GlOp::TexParameter(TextureParameter::MagFilter, TextureSetting::Nearest),
            GlOp::TexParameter(TextureParameter::MinFilter, TextureSetting::Nearest),
            GlOp::TexParameter(TextureParameter::WrapS, TextureSetting::MirroredRepeat),
            GlOp::TexParameter(TextureParameter::WrapT, TextureSetting::MirroredRepeat),
            GlOp::DrawElements { count: 6 },
        ]
    );
}

#[test]
fn bitmaps_repeat_only_on_webgl2() {
    let mut backend = backend(VertexArrayApi::Extension, 1);
    register_texture(&mut backend, 5, 10, 70);
    let shape = vec![bitmap_draw(5, true, true)];
    let (handle, _) = backend.register_shape(&shape, &vec![draw_names(20)]);
    let drawn = ops(&backend.render_shape(handle, &transform(0.0)));
    assert!(drawn
        .contains(&GlOp::TexParameter(TextureParameter::WrapS, TextureSetting::ClampToEdge)));
    assert!(drawn.contains(&GlOp::TexParameter(TextureParameter::MagFilter, TextureSetting::Linear)));
}

#[test]
fn bitmap_fills_that_are_not_registered_are_skipped() {
    let mut backend = backend(VertexArrayApi::WebGl2, 1);
    let shape = vec![bitmap_draw(5, true, false), color_draw()];
    let (handle, _) =
        backend.register_shape(&shape, &vec![draw_names(20), draw_names(30)]);
    let drawn = ops(&backend.render_shape(handle, &transform(0.0)));
    let mut counts = Vec::new();
    for op in &drawn {
        if let GlOp::DrawElements { count } = op {
            counts.push(*count);
        }
    }
    assert_eq!(counts, vec![3]);
    // The color program takes over, with its own blending.
    assert!(drawn.contains(&GlOp::BlendFunc(BlendFactor::SrcAlpha, BlendFactor::OneMinusSrcAlpha)));
}

#[test]
fn bitmaps_are_drawn_on_the_unit_square() {
    let mut backend = backend(VertexArrayApi::WebGl2, 1);
    register_texture(&mut backend, 5, 10, 70);
    let second = register_texture(&mut backend, 6, 10, 71);
    let drawn = ops(&backend.render_bitmap(BitmapHandle { index: second }, &transform(0.0)));
    assert_eq!(drawn[2], GlOp::BindVertexArray(VertexArrayApi::WebGl2, Some(name(11))));
    assert!(drawn.contains(&GlOp::BindTexture(Some(name(71)))));
    assert!(drawn.contains(&GlOp::UniformMatrix4(location(BITMAP, 0), world())));
    assert_eq!(drawn.last(), Some(&GlOp::DrawElements { count: 6 }));
    assert!(backend.render_bitmap(BitmapHandle { index: 2 }, &transform(0.0)).is_empty());
}

#[test]
fn rectangles_are_drawn_in_a_color() {
    let mut backend = backend(VertexArrayApi::WebGl2, 1);
    let color = Color { r: 255, g: 1, b: 0, a: 128 };
    let drawn = ops(&backend.draw_rect(color, &transform(0.0).matrix));
    assert_eq!(
        drawn,
        vec![
            unmasked()[0],
            unmasked()[1],
            GlOp::UseProgram(name(COLOR)),
            GlOp::UniformMatrix4(location(COLOR, 1), view_matrix(500.0, 500.0)),
            GlOp::UniformMatrix4(location(COLOR, 0), world()),
            GlOp::Uniform4f(location(COLOR, 2), vector([1.0, 1.0, 1.0, 1.0])),
            GlOp::Uniform4f(
                location(COLOR, 3),
                vector([255.0 * 255.0, 255.0, 0.0, 128.0 * 255.0])
            ),
            GlOp::BindVertexArray(VertexArrayApi::WebGl2, Some(name(11))),
            GlOp::DrawElements { count: 6 },
        ]
    );
    assert_eq!(backend.draw_rect(color, &transform(0.0).matrix).len(), 5);
}

#[test]
fn frames_begin_cleared() {
    let mut backend = backend(VertexArrayApi::WebGl2, 4);
    backend.build_msaa_buffers(msaa_names(50));
    backend.msaa_buffers_built(msaa_names(50), Ok(())).unwrap();
    backend.push_mask();
    let clear = vector([1.0, 0.5, 0.0, 1.0]);
    assert_eq!(
        ops(&backend.begin_frame(clear)),
        vec![
            GlOp::BindFramebuffer(FramebufferTarget::Framebuffer, Some(name(52))),
            GlOp::Disable(Capability::StencilTest),
            GlOp::ColorMask(true),
            GlOp::ClearColor(clear),
            GlOp::StencilMask(0xff),
            GlOp::Clear { color: true, stencil: true },
        ]
    );
    assert_eq!(backend.num_masks, 0);
    assert_eq!(backend.mask_state, MaskState::NoMask);
}

#[test]
fn frames_end_resolved() {
    let mut backend = backend(VertexArrayApi::WebGl2, 4);
    assert!(backend.end_frame().is_empty());
    backend.build_msaa_buffers(msaa_names(50));
    backend.msaa_buffers_built(msaa_names(50), Ok(())).unwrap();
    assert_eq!(
        ops(&backend.end_frame()),
        vec![
            GlOp::Disable(Capability::StencilTest),
            GlOp::BindFramebuffer(FramebufferTarget::ReadFramebuffer, Some(name(52))),
            GlOp::BindFramebuffer(FramebufferTarget::DrawFramebuffer, Some(name(53))),
            GlOp::BlitColors { width: 500, height: 500 },
            GlOp::BindFramebuffer(FramebufferTarget::Framebuffer, None),
            GlOp::UseProgram(name(BITMAP)),
            GlOp::UniformMatrix4(
                location(BITMAP, 0),
                matrix4([
                    [2.0, 0.0, 0.0, 0.0],
                    [0.0, 2.0, 0.0, 0.0],
                    [0.0, 0.0, 1.0, 0.0],
                    [-1.0, -1.0, 0.0, 1.0],
                ])
            ),
            GlOp::UniformMatrix4(location(BITMAP, 1), Matrix4::identity()),
            GlOp::Uniform4f(location(BITMAP, 2), vector([1.0, 1.0, 1.0, 1.0])),
            GlOp::Uniform4f(location(BITMAP, 3), vector([0.0, 0.0, 0.0, 0.0])),
            GlOp::UniformMatrix3(location(BITMAP, 4), Matrix3::identity()),
            GlOp::ActiveTexture0,
            GlOp::BindTexture(Some(name(54))),
            GlOp::Uniform1i(location(BITMAP, 12), 0),
            GlOp::BindVertexArray(VertexArrayApi::WebGl2, Some(name(11))),
            GlOp::DrawElements { count: 6 },
        ]
    );
}

#[test]
fn margins_are_painted_over() {
    let backend = backend(VertexArrayApi::WebGl2, 1);
    let clear = GlOp::Clear { color: true, stencil: false };
    let start = [unmasked()[0], unmasked()[1], GlOp::ClearColor(vector([0.0; 4]))];
    assert_eq!(ops(&backend.draw_letterbox(Letterbox::NoMargins)), start);

    let margin = 10.75;
    let (margin, far) = (number(margin), number(500.0 - margin));
    let drawn = ops(&backend.draw_letterbox(Letterbox::Letterbox { margin, far }));
    assert_eq!(drawn[..3], start);
    assert_eq!(
        drawn[3..],
        [
            GlOp::Enable(Capability::ScissorTest),
            GlOp::Scissor { x: 0, y: 0, width: 500, height: 10 },
            clear,
            GlOp::Scissor { x: 0, y: 489, width: 500, height: 11 },
            clear,
            GlOp::Disable(Capability::ScissorTest),
        ]
    );
    let drawn = ops(&backend.draw_letterbox(Letterbox::Pillarbox { margin, far }));
    assert_eq!(
        drawn[3..],
        [
            GlOp::Enable(Capability::ScissorTest),
            GlOp::Scissor { x: 0, y: 0, width: 10, height: 500 },
            clear,
            GlOp::Scissor { x: 489, y: 0, width: 11, height: 500 },
            clear,
            GlOp::Scissor { x: 0, y: 0, width: 500, height: 500 },
            GlOp::Disable(Capability::ScissorTest),
        ]
    );
}

/// The state that draws depend on.
#[derive(Default)]
struct State {
    program: Option<u64>,
    blend: Option<(BlendFactor, BlendFactor)>,
    vao: Option<GlName>,
    texture: Option<GlName>,
    vectors: Vec<(GlName, Vec4)>,
    matrices: Vec<(GlName, Matrix4)>,
}

impl State {
    fn vector(&self, location: Option<GlName>) -> Vec4 {
        let location = location.unwrap();
        self.vectors.iter().rev().find(|(name, _)| *name == location).unwrap().1
    }

    fn matrix(&self, location: Option<GlName>) -> Matrix4 {
        let location = location.unwrap();
        self.matrices.iter().rev().find(|(name, _)| *name == location).unwrap().1
    }

    fn apply(&mut self, op: GlOp) {
        match op {
            GlOp::UseProgram(program) => self.program = Some(program.id),
            GlOp::BlendFunc(src, dst) => self.blend = Some((src, dst)),
            GlOp::BindVertexArray(_, vao) => self.vao = vao,
            GlOp::BindTexture(texture) => self.texture = texture,
            GlOp::Uniform4f(Some(name), value) => self.vectors.push((name, value)),
            GlOp::UniformMatrix4(Some(name), value) => self.matrices.push((name, value)),
            _ => {}
        }
    }
}

#[test]
fn everything_is_set_when_triangles_are_drawn() {
    let mut backend = backend(VertexArrayApi::WebGl2, 4);
    backend.build_msaa_buffers(msaa_names(50));
    backend.msaa_buffers_built(msaa_names(50), Ok(())).unwrap();
    register_texture(&mut backend, 5, 10, 70);
    let shape = vec![color_draw(), bitmap_draw(5, true, false), color_draw()];
    let (handle, _) = backend.register_shape(
        &shape,
        &vec![draw_names(20), draw_names(23), draw_names(26)],
    );
    let expected = [(20, COLOR), (23, BITMAP), (26, COLOR)];
    let mut state = State::default();
    state.blend = Some((BlendFactor::SrcAlpha, BlendFactor::OneMinusSrcAlpha));
    for frame in 0..3 {
        for op in ops(&backend.begin_frame(vector([0.0; 4]))) {
            state.apply(op);
        }
        for step in 0..3 {
            let add = (frame + step) as f32;
            let mut drawn = 0;
            for op in ops(&backend.render_shape(handle, &transform(add))) {
                state.apply(op);
                if let GlOp::DrawElements { .. } = op {
                    let (vao, program) = expected[drawn];
                    assert_eq!(state.vao, Some(name(vao)));
                    assert_eq!(state.program, Some(program));
                    let src = if program == BITMAP {
                        BlendFactor::One
                    } else {
                        BlendFactor::SrcAlpha
                    };
                    assert_eq!(state.blend, Some((src, BlendFactor::OneMinusSrcAlpha)));
                    assert_eq!(state.matrix(location(program, 0)), world());
                    assert_eq!(state.matrix(location(program, 1)), view_matrix(500.0, 500.0));
                    assert_eq!(
                        state.vector(location(program, 2)),
                        vector([0.5, 0.25, 1.0, 0.75])
                    );
                    assert_eq!(
                        state.vector(location(program, 3)),
                        vector([add, 0.0, 0.0, 0.0])
                    );
                    if program == BITMAP {
                        assert_eq!(state.texture, Some(name(70)));
                    }
                    drawn += 1;
                }
            }
            assert_eq!(drawn, 3);
            for op in ops(&backend.draw_rect(
                Color { r: 1, g: 2, b: 3, a: 4 },
                &transform(0.0).matrix,
            )) {
                state.apply(op);
            }
            assert_eq!(state.program, Some(COLOR));
            assert_eq!(
                state.vector(location(COLOR, 3)),
                vector([255.0, 510.0, 765.0, 1_020.0])
            );
        }
        for op in ops(&backend.end_frame()) {
            state.apply(op);
        }
    }
}

#[test]
fn a_new_size_shows_when_the_program_is_next_taken_into_use() {
    let mut backend = backend(VertexArrayApi::WebGl2, 1);
    let (handle, _) = backend.register_shape(&vec![color_draw()], &vec![draw_names(20)]);
    backend.render_shape(handle, &transform(0.0));
    backend.set_viewport_dimensions(640, 480, msaa_names(50), number(0.25), number(-0.125));
    assert_eq!(backend.render_shape(handle, &transform(0.0)).len(), 5);
    backend.begin_frame(vector([0.0; 4]));
    let drawn = ops(&backend.render_shape(handle, &transform(0.0)));
    assert_eq!(drawn[4], GlOp::UniformMatrix4(location(COLOR, 1), backend.view_matrix));
    assert_eq!(backend.view_matrix.c1.y, number(-0.125));
}

#[test]
fn loading_and_margins_leave_programs_alone() {
    let mut backend = backend(VertexArrayApi::WebGl2, 4);
    let shape = vec![color_draw(), gradient_draw()];
    let (_, mut commands) = backend.register_shape(&shape, &vec![draw_names(20), draw_names(30)]);
    let bitmap = Bitmap { width: 1, height: 1, data: BitmapFormat::Rgb(vec![1, 2, 3]) };
    commands.append(&mut WebGlRenderBackend::load_bitmap(bitmap, name(70)));
    commands.append(&mut backend.build_msaa_buffers(msaa_names(50)));
    let (margin, far) = (number(1.0), number(499.0));
    commands.append(&mut backend.draw_letterbox(Letterbox::Letterbox { margin, far }));
    for command in &commands {
        assert!(!matches!(
            command,
            GlCommand::Op(GlOp::UseProgram(_))
                | GlCommand::Op(GlOp::BlendFunc(_, _))
                | GlCommand::Op(GlOp::Uniform4f(_, _))
                | GlCommand::Op(GlOp::UniformMatrix4(_, _))
                | GlCommand::Op(GlOp::DrawElements { .. })
        ));
    }
}

#[test]
fn textures_have_the_size_of_their_bitmap() {
    let bitmap = Bitmap { width: 30, height: 7, data: BitmapFormat::Rgb(vec![]) };
    assert_eq!(
        bitmap.texture(name(70)),
        Texture { width: 30, height: 7, texture: name(70) }
    );
}

#[test]
fn without_the_unit_square_some_calls_do_nothing() {
    let mut backend = backend(VertexArrayApi::WebGl2, 1);
    let quad = backend.quad_shape;
    backend.replace_shape(&vec![], &vec![], quad);
    assert!(backend.end_frame().is_empty());
    assert!(backend.render_bitmap(BitmapHandle { index: 0 }, &transform(0.0)).is_empty());
}
