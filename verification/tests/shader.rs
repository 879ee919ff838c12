//! Shaders, programs and what they take.
use ruffle::float::FloatBits;
use ruffle::geometry::{vec4, Matrix3, Matrix4};
use ruffle::gl::{
    AttributeType, BlendFactor, GlCommand, GlError, GlName, GlOp, OnFailure, ResourceKind,
    ShaderKind, ShaderText, Uncreated,
};
use ruffle::shader::{
    compile_shaders, uniform_names, ProgramKind, ShaderNames, ShaderProgram, ShaderUniform,
    NUM_UNIFORMS,
};

fn name(id: u64) -> GlName {
    GlName { id }
}

fn shader_names() -> ShaderNames {
    ShaderNames {
        color_vertex: name(1),
        texture_vertex: name(2),
        color_fragment: name(3),
        bitmap_fragment: name(4),
        gradient_fragment: name(5),
    }
}

fn all_uniforms() -> [ShaderUniform; NUM_UNIFORMS] {
    [
        ShaderUniform::WorldMatrix,
        ShaderUniform::ViewMatrix,
        ShaderUniform::MultColor,
        ShaderUniform::AddColor,
        ShaderUniform::TextureMatrix,
        ShaderUniform::GradientType,
        ShaderUniform::GradientRatios,
        ShaderUniform::GradientColors,
        ShaderUniform::GradientNumColors,
        ShaderUniform::GradientRepeatMode,
        ShaderUniform::GradientFocalPoint,
        ShaderUniform::GradientInterpolation,
        ShaderUniform::BitmapTexture,
    ]
}

fn ops(commands: &[GlCommand]) -> Vec<GlOp> {
    let mut ops = Vec::new();
    for command in commands {
        match command {
            GlCommand::Op(op) => ops.push(*op),
            other => panic!("{:?}", other),
        }
    }
    ops
}

#[test]
fn uniforms_are_named_by_position() {
    let expected = [
        "world_matrix",
        "view_matrix",
        "mult_color",
        "add_color",
        "u_matrix",
        "u_gradient_type",
        "u_ratios",
        "u_colors",
        "u_num_colors",
        "u_repeat_mode",
        "u_focal_point",
        "u_interpolation",
        "u_texture",
    ];
    assert_eq!(uniform_names(), expected);
    for (i, uniform) in all_uniforms().iter().enumerate() {
        assert_eq!(uniform.index(), i);
    }
}

#[test]
fn shaders_are_compiled() {
    let all = ops(&compile_shaders(shader_names()));
    let mut expected = Vec::new();
    for (kind, id, text) in [
        (ShaderKind::Vertex, 1, ShaderText::ColorVertex),
        (ShaderKind::Vertex, 2, ShaderText::TextureVertex),
        (ShaderKind::Fragment, 3, ShaderText::ColorFragment),
        (ShaderKind::Fragment, 4, ShaderText::BitmapFragment),
        (ShaderKind::Fragment, 5, ShaderText::GradientFragment),
    ] {
        expected.push(GlOp::Create {
            kind: ResourceKind::Shader(kind),
            name: name(id),
            on_failure: OnFailure::Panic,
        });
        expected.push(GlOp::ShaderSource(name(id), text));
        expected.push(GlOp::CompileShader(name(id)));
    }
    assert_eq!(all, expected);
}

#[test]
fn programs_are_linked_from_their_shaders() {
    for (kind, vertex, fragment) in [
        (ProgramKind::Color, 1, 3),
        (ProgramKind::Gradient, 2, 5),
        (ProgramKind::Bitmap, 2, 4),
    ] {
        assert_eq!(
            ops(&ShaderProgram::link(kind, name(9), shader_names())),
            vec![
                GlOp::Create {
                    kind: ResourceKind::Program,
                    name: name(9),
                    on_failure: OnFailure::Error(Uncreated::Program),
                },
                GlOp::AttachShader { program: name(9), shader: name(vertex) },
                GlOp::AttachShader { program: name(9), shader: name(fragment) },
                GlOp::LinkProgram(name(9)),
            ]
        );
    }
}

#[test]
fn programs_that_do_not_link_are_errors() {
    assert!(ShaderProgram::check_link(Some(true), None).is_ok());
    let failed = ShaderProgram::check_link(Some(false), Some("bad".to_string()));
    assert!(matches!(failed, Err(GlError::Link(Some(log))) if log == "bad"));
    let unknown = ShaderProgram::check_link(None, None);
    assert!(matches!(unknown, Err(GlError::Link(None))));
}

#[test]
fn attributes_are_counted() {
    let uniforms = [None; NUM_UNIFORMS];
    assert_eq!(ShaderProgram::new(name(1), uniforms, 0, 1).num_vertex_attributes, 2);
    assert_eq!(ShaderProgram::new(name(1), uniforms, 0, -1).num_vertex_attributes, 1);
    assert_eq!(ShaderProgram::new(name(1), uniforms, -1, 0).num_vertex_attributes, 1);
    let none = ShaderProgram::new(name(1), uniforms, -1, -1);
    assert_eq!(none.num_vertex_attributes, 0);
    assert_eq!(none.vertex_position_location, 0xffff_ffff);
}

#[test]
fn attributes_are_described_and_turned_off() {
    let uniforms = [None; NUM_UNIFORMS];
    let position = [
        GlOp::VertexAttribPointer {
            location: 3,
            size: 2,
            data_type: AttributeType::Float,
            normalized: false,
            stride: 12,
            offset: 0,
        },
        GlOp::EnableVertexAttribArray(3),
    ];
    let color = [
        GlOp::VertexAttribPointer {
            location: 1,
            size: 4,
            data_type: AttributeType::UnsignedByte,
            normalized: true,
            stride: 12,
            offset: 8,
        },
        GlOp::EnableVertexAttribArray(1),
    ];

    let both = ShaderProgram::new(name(1), uniforms, 3, 1);
    let mut commands = Vec::new();
    both.enable_attributes(&mut commands);
    both.disable_attributes(&mut commands);
    assert_eq!(ops(&commands), vec![position[0], position[1], color[0], color[1]]);

    let one = ShaderProgram::new(name(1), uniforms, 3, -1);
    let mut commands = Vec::new();
    one.enable_attributes(&mut commands);
    one.disable_attributes(&mut commands);
    assert_eq!(
        ops(&commands),
        vec![position[0], position[1], GlOp::DisableVertexAttribArray(1)]
    );

    let none = ShaderProgram::new(name(1), uniforms, -1, -1);
    let mut commands = Vec::new();
    none.enable_attributes(&mut commands);
    none.disable_attributes(&mut commands);
    assert_eq!(
        ops(&commands),
        vec![GlOp::DisableVertexAttribArray(0), GlOp::DisableVertexAttribArray(1)]
    );
}

#[test]
fn uniforms_go_to_their_locations() {
    let mut uniforms = [None; NUM_UNIFORMS];
    for i in 0..NUM_UNIFORMS {
        uniforms[i] = Some(name(100 + i as u64));
    }
    uniforms[9] = None;
    let program = ShaderProgram::new(name(1), uniforms, 0, 1);
    for uniform in all_uniforms() {
        let expected = if uniform == ShaderUniform::GradientRepeatMode {
            None
        } else {
            Some(name(100 + uniform.index() as u64))
        };
        assert_eq!(program.location(uniform), expected);
    }
    let one = FloatBits::one();
    let two = FloatBits::two();
    let mut commands = Vec::new();
    program.uniform1f(&mut commands, ShaderUniform::GradientFocalPoint, two);
    program.uniform1i(&mut commands, ShaderUniform::GradientRepeatMode, 7);
    program.uniform4f(&mut commands, ShaderUniform::MultColor, vec4(one, two, one, two));
    program.uniform_matrix3fv(&mut commands, ShaderUniform::TextureMatrix, Matrix3::identity());
    program.uniform_matrix4fv(&mut commands, ShaderUniform::WorldMatrix, Matrix4::identity());
    assert_eq!(
        ops(&commands),
        vec![
            GlOp::Uniform1f(Some(name(110)), two),
            GlOp::Uniform1i(None, 7),
            GlOp::Uniform4f(Some(name(102)), vec4(one, two, one, two)),
            GlOp::UniformMatrix3(Some(name(104)), Matrix3::identity()),
            GlOp::UniformMatrix4(Some(name(100)), Matrix4::identity()),
        ]
    );
    let mut commands = Vec::new();
    program.uniform1fv(&mut commands, ShaderUniform::GradientRatios, vec![one, two]);
    program.uniform4fv(&mut commands, ShaderUniform::GradientColors, vec![two, one]);
    match &commands[0] {
        GlCommand::Uniform1fv { location, values } => {
            assert_eq!(*location, Some(name(106)));
            assert_eq!(*values, vec![one, two]);
        }
        other => panic!("{:?}", other),
    }
    match &commands[1] {
        GlCommand::Uniform4fv { location, values } => {
            assert_eq!(*location, Some(name(107)));
            assert_eq!(*values, vec![two, one]);
        }
        other => panic!("{:?}", other),
    }
}

#[test]
fn bitmaps_are_blended_as_premultiplied() {
    let usual = (BlendFactor::SrcAlpha, BlendFactor::OneMinusSrcAlpha);
    assert_eq!(ProgramKind::Color.blend(), usual);
    assert_eq!(ProgramKind::Gradient.blend(), usual);
    assert_eq!(ProgramKind::Bitmap.blend(), (BlendFactor::One, BlendFactor::OneMinusSrcAlpha));
}

#[test]
fn matrices_are_laid_out_by_columns() {
    let mut numbers = Vec::new();
    for number in Matrix4::identity().values() {
        numbers.push(f32::from_bits(number.bits));
    }
    assert_eq!(
        numbers,
        vec![1.0, 0.0, 0.0, 0.0, 0.0, 1.0, 0.0, 0.0, 0.0, 0.0, 1.0, 0.0, 0.0, 0.0, 0.0, 1.0]
    );
    let mut numbers = Vec::new();
    for number in Matrix3::identity().values() {
        numbers.push(f32::from_bits(number.bits));
    }
    assert_eq!(numbers, vec![1.0, 0.0, 0.0, 0.0, 1.0, 0.0, 0.0, 0.0, 1.0]);
}
