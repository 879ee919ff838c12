//! How vertices, indices and gradients are laid out.
use ruffle::float::FloatBits;
use ruffle::geometry::{vec4, Matrix3, Vec4};
use ruffle::gl::{BufferTarget, GlCommand, GlName, GlOp, OnFailure, ResourceKind, VertexArrayApi};
use ruffle::mesh::{
    flatten, index_bytes, upload, vertex_bytes, BitmapDraw, DrawNames, DrawType,
    GradientInterpolation, GradientSpread, GradientType, TessDraw, TessDrawType, TessGradient,
    Vertex, MAX_GRADIENT_COLORS,
};
use ruffle::shader::ProgramKind;

fn number(value: f32) -> FloatBits {
    FloatBits { bits: value.to_bits() }
}

fn gray(value: f32) -> Vec4 {
    vec4(number(value), number(value), number(value), number(1.0))
}

fn names() -> DrawNames {
    DrawNames {
        vao: GlName { id: 1 },
        vertex_buffer: GlName { id: 2 },
        index_buffer: GlName { id: 3 },
    }
}

fn gradient(num_colors: u32, stored: usize) -> TessGradient {
    let mut ratios = Vec::new();
    let mut colors = Vec::new();
    let mut linear_colors = Vec::new();
    for i in 0..stored {
        ratios.push(number(i as f32));
        colors.push(gray(10.0 + i as f32));
        linear_colors.push(gray(100.0 + i as f32));
    }
    TessGradient {
        matrix: Matrix3::identity(),
        gradient_type: GradientType::Linear,
        ratios,
        colors,
        linear_colors,
        num_colors,
        repeat_mode: GradientSpread::Pad,
        focal_point: number(0.5),
        interpolation: GradientInterpolation::Rgb,
    }
}

#[test]
fn vertices_are_12_bytes_with_the_color_at_8() {
    let vertices = vec![
        Vertex { x: number(1.0), y: number(-2.5), color: 0x1122_3344 },
        Vertex { x: number(0.0), y: number(640.0), color: 0xffff_ffff },
    ];
    let mut expected = Vec::new();
    expected.extend_from_slice(&1.0f32.to_le_bytes());
    expected.extend_from_slice(&(-2.5f32).to_le_bytes());
    expected.extend_from_slice(&[0x44, 0x33, 0x22, 0x11]);
    expected.extend_from_slice(&0.0f32.to_le_bytes());
    expected.extend_from_slice(&640.0f32.to_le_bytes());
    expected.extend_from_slice(&[0xff, 0xff, 0xff, 0xff]);
    assert_eq!(vertex_bytes(&vertices), expected);
    assert_eq!(expected.len(), 24);
    assert!(vertex_bytes(&vec![]).is_empty());
}

#[test]
fn indices_keep_their_lower_16_bits() {
    let bytes = index_bytes(&vec![0, 1, 0x1234, 0xffff, 0x1_0005]);
    assert_eq!(bytes, vec![0, 0, 1, 0, 0x34, 0x12, 0xff, 0xff, 5, 0]);
}

#[test]
fn gradients_are_padded_with_their_last_color() {
    let shader = gradient(3, 3).to_shader();
    assert_eq!(shader.ratios.len(), MAX_GRADIENT_COLORS);
    assert_eq!(shader.colors.len(), MAX_GRADIENT_COLORS);
    for i in 0..MAX_GRADIENT_COLORS {
        let from = if i < 3 { i } else { 2 };
        assert_eq!(shader.ratios[i], number(from as f32));
        assert_eq!(shader.colors[i], gray(10.0 + from as f32));
    }
    assert_eq!(shader.num_colors, 3);
    assert_eq!(shader.focal_point, number(0.5));
}

#[test]
fn gradients_with_too_many_colors_are_cut() {
    let shader = gradient(20, 20).to_shader();
    assert_eq!(shader.ratios.len(), 15);
    assert_eq!(shader.ratios[14], number(14.0));
    assert_eq!(shader.colors[14], gray(24.0));
    assert_eq!(shader.num_colors, 20);
}

#[test]
fn one_color_fills_the_gradient() {
    let shader = gradient(1, 4).to_shader();
    for i in 0..MAX_GRADIENT_COLORS {
        assert_eq!(shader.colors[i], gray(10.0));
    }
}

#[test]
fn linear_gradients_take_linear_colors() {
    let mut linear = gradient(2, 2);
    linear.interpolation = GradientInterpolation::LinearRgb;
    let shader = linear.to_shader();
    assert_eq!(shader.colors[0], gray(100.0));
    assert_eq!(shader.colors[14], gray(101.0));
    assert_eq!(shader.interpolation, GradientInterpolation::LinearRgb);
}

#[test]
fn gradient_kinds_are_numbered() {
    for (kind, expected) in
        [(GradientType::Linear, 0), (GradientType::Radial, 1), (GradientType::Focal, 2)]
    {
        let mut typed = gradient(1, 1);
        typed.gradient_type = kind;
        assert_eq!(typed.to_shader().gradient_type, expected);
    }
    for (spread, expected) in
        [(GradientSpread::Pad, 0), (GradientSpread::Repeat, 1), (GradientSpread::Reflect, 2)]
    {
        let mut spreading = gradient(1, 1);
        spreading.repeat_mode = spread;
        assert_eq!(spreading.to_shader().repeat_mode, expected);
    }
}

#[test]
fn colors_are_flattened() {
    let numbers = flatten(&vec![gray(2.0), gray(3.0)]);
    let expected: Vec<FloatBits> =
        [2.0, 2.0, 2.0, 1.0, 3.0, 3.0, 3.0, 1.0].iter().map(|value| number(*value)).collect();
    assert_eq!(numbers, expected);
}

#[test]
fn triangles_are_kept_with_their_names() {
    let bitmap =
        BitmapDraw { matrix: Matrix3::identity(), id: 7, is_repeating: true, is_smoothed: false };
    let draw = TessDraw {
        draw_type: TessDrawType::Bitmap(bitmap),
        vertices: vec![],
        indices: vec![0, 1, 2, 0, 2, 3],
    };
    let (program, kept) = draw.keep(names());
    assert_eq!(program, ProgramKind::Bitmap);
    assert_eq!(kept.num_indices, 6);
    assert_eq!(kept.vao, names().vao);
    assert_eq!(kept.vertex_buffer, names().vertex_buffer);
    assert_eq!(kept.index_buffer, names().index_buffer);
    assert!(matches!(kept.draw_type, DrawType::Bitmap(kept_bitmap) if kept_bitmap == bitmap));

    let plain = TessDraw { draw_type: TessDrawType::Color, vertices: vec![], indices: vec![] };
    let (program, kept) = plain.keep(names());
    assert_eq!(program, ProgramKind::Color);
    assert!(matches!(kept.draw_type, DrawType::Color));

    let shaded = TessDraw {
        draw_type: TessDrawType::Gradient(gradient(2, 2)),
        vertices: vec![],
        indices: vec![],
    };
    let (program, kept) = shaded.keep(names());
    assert_eq!(program, ProgramKind::Gradient);
    assert!(matches!(kept.draw_type, DrawType::Gradient(_)));
}

#[test]
fn triangles_are_uploaded() {
    let vertices = vec![Vertex { x: number(1.0), y: number(0.0), color: 0 }];
    let indices = vec![0, 0, 0];
    let mut commands = Vec::new();
    upload(
        &mut commands,
        VertexArrayApi::Extension,
        names(),
        OnFailure::Panic,
        &vertices,
        &indices,
    );
    let expected = vec![
        GlCommand::Op(GlOp::Create {
            kind: ResourceKind::VertexArray(VertexArrayApi::Extension),
            name: names().vao,
            on_failure: OnFailure::Panic,
        }),
        GlCommand::Op(GlOp::BindVertexArray(VertexArrayApi::Extension, Some(names().vao))),
        GlCommand::Op(GlOp::Create {
            kind: ResourceKind::Buffer,
            name: names().vertex_buffer,
            on_failure: OnFailure::Panic,
        }),
        GlCommand::Op(GlOp::BindBuffer(BufferTarget::Array, names().vertex_buffer)),
        GlCommand::BufferData { target: BufferTarget::Array, bytes: vertex_bytes(&vertices) },
        GlCommand::Op(GlOp::Create {
            kind: ResourceKind::Buffer,
            name: names().index_buffer,
            on_failure: OnFailure::Panic,
        }),
        GlCommand::Op(GlOp::BindBuffer(BufferTarget::ElementArray, names().index_buffer)),
        GlCommand::BufferData { target: BufferTarget::ElementArray, bytes: vec![0; 6] },
    ];
    assert_eq!(format!("{:?}", commands), format!("{:?}", expected));
}

#[test]
fn gradients_need_as_many_colors_as_the_shader_takes() {
    assert!(gradient(3, 3).is_complete());
    assert!(gradient(20, 15).is_complete());
    assert!(!gradient(0, 3).is_complete());
    assert!(!gradient(3, 2).is_complete());
    assert!(!gradient(15, 14).is_complete());
    let mut linear = gradient(2, 2);
    linear.interpolation = GradientInterpolation::LinearRgb;
    assert!(linear.is_complete());
    linear.linear_colors.pop();
    assert!(!linear.is_complete());
    let plain = TessDraw { draw_type: TessDrawType::Color, vertices: vec![], indices: vec![] };
    assert!(plain.is_complete());
    let shaded = TessDraw {
        draw_type: TessDrawType::Gradient(gradient(3, 2)),
        vertices: vec![],
        indices: vec![],
    };
    assert!(!shaded.is_complete());
}
