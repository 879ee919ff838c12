//! Shader programs.
//!
//! Because the shaders are currently simple and few in number, we are using a
//! straightforward shader model. We maintain an enum of every possible uniform,
//! and each shader tries to grab the location of each uniform.
use vstd::prelude::*;

use crate::float::FloatBits;
use crate::geometry::{Matrix3, Matrix4, Vec4};
use crate::gl::{
    emit, emit_op, no_commands, AttributeType, BlendFactor, GlCommand, GlError, GlName, GlOp,
    OnFailure, ResourceKind, ShaderKind, ShaderText, Uncreated,
};

verus! {

use crate::gl::{calls, ops, GlCall};

pub const NUM_UNIFORMS: usize = 13;

pub const NUM_VERTEX_ATTRIBUTES: u32 = 2;

/// The location of an attribute that a shader does not have.
pub const NO_LOCATION: u32 = 0xffff_ffff;

/// The name of the attribute for the position of a vertex.
pub const POSITION_ATTRIBUTE: &'static str = "position";

/// The name of the attribute for the color of a vertex.
pub const COLOR_ATTRIBUTE: &'static str = "color";

#[derive(Clone, Copy, PartialEq, Eq, Structural, Debug)]
pub enum ShaderUniform {
    WorldMatrix,
    ViewMatrix,
    MultColor,
    AddColor,
    TextureMatrix,
    GradientType,
    GradientRatios,
    GradientColors,
    GradientNumColors,
    GradientRepeatMode,
    GradientFocalPoint,
    GradientInterpolation,
    BitmapTexture,
}

/// The names of the uniforms, by position. These should match the uniform names
/// in the shaders.
pub open spec fn uniform_name_seq() -> Seq<&'static str> {
    seq![
        "world_matrix",
        "view_matrix",
        "mult_color",
        "add_color",
        "u_matrix",
        "u_gradient_type",
        "u_ratios",
        "u_colors",
        "u_num_colors",
        "u_repeat_mode",
        "u_focal_point",
        "u_interpolation",
        "u_texture",
    ]
}

/// The names of the uniforms, by position.
pub fn uniform_names() -> (names: Vec<&'static str>)
    ensures
        names@ == uniform_name_seq(),
        names.len() == NUM_UNIFORMS,
{
    vec![
        "world_matrix",
        "view_matrix",
        "mult_color",
        "add_color",
        "u_matrix",
        "u_gradient_type",
        "u_ratios",
        "u_colors",
        "u_num_colors",
        "u_repeat_mode",
        "u_focal_point",
        "u_interpolation",
        "u_texture",
    ]
}

impl ShaderUniform {
    /// The position of the uniform among all of them.
    pub open spec fn position(self) -> int {
        match self {
            ShaderUniform::WorldMatrix => 0,
            ShaderUniform::ViewMatrix => 1,
            ShaderUniform::MultColor => 2,
            ShaderUniform::AddColor => 3,
            ShaderUniform::TextureMatrix => 4,
            ShaderUniform::GradientType => 5,
            ShaderUniform::GradientRatios => 6,
            ShaderUniform::GradientColors => 7,
            ShaderUniform::GradientNumColors => 8,
            ShaderUniform::GradientRepeatMode => 9,
            ShaderUniform::GradientFocalPoint => 10,
            ShaderUniform::GradientInterpolation => 11,
            ShaderUniform::BitmapTexture => 12,
        }
    }

    /// The position of the uniform among all of them.
    pub fn index(self) -> (index: usize)
        ensures
            index == self.position(),
            index < NUM_UNIFORMS,
    {
        match self {
            ShaderUniform::WorldMatrix => 0,
            ShaderUniform::ViewMatrix => 1,
            ShaderUniform::MultColor => 2,
            ShaderUniform::AddColor => 3,
            ShaderUniform::TextureMatrix => 4,
            ShaderUniform::GradientType => 5,
            ShaderUniform::GradientRatios => 6,
            ShaderUniform::GradientColors => 7,
            ShaderUniform::GradientNumColors => 8,
            ShaderUniform::GradientRepeatMode => 9,
            ShaderUniform::GradientFocalPoint => 10,
            ShaderUniform::GradientInterpolation => 11,
            ShaderUniform::BitmapTexture => 12,
        }
    }
}

/// Uniforms at different positions are different.
pub proof fn law_uniform_positions_differ(a: ShaderUniform, b: ShaderUniform)
    ensures
        a.position() == b.position() <==> a == b,
        0 <= a.position() < NUM_UNIFORMS,
{
}

/// The programs that the renderer draws with.
#[derive(Clone, Copy, PartialEq, Eq, Structural, Debug)]
pub enum ProgramKind {
    Color,
    Gradient,
    Bitmap,
}

impl ProgramKind {
    /// How what the program draws is mixed with what is there. Bitmaps use
    /// pre-multiplied alpha.
    pub open spec fn spec_blend(self) -> (BlendFactor, BlendFactor) {
        match self {
            ProgramKind::Bitmap => (BlendFactor::One, BlendFactor::OneMinusSrcAlpha),
            _ => (BlendFactor::SrcAlpha, BlendFactor::OneMinusSrcAlpha),
        }
    }

    /// How what the program draws is mixed with what is there.
    pub fn blend(self) -> (blend: (BlendFactor, BlendFactor))
        ensures
            blend == self.spec_blend(),
    {
        match self {
            ProgramKind::Color => (BlendFactor::SrcAlpha, BlendFactor::OneMinusSrcAlpha),
            ProgramKind::Gradient => (BlendFactor::SrcAlpha, BlendFactor::OneMinusSrcAlpha),
            ProgramKind::Bitmap => (BlendFactor::One, BlendFactor::OneMinusSrcAlpha),
        }
    }
}

/// The names of the shaders.
#[derive(Clone, Copy, PartialEq, Eq, Structural, Debug)]
pub struct ShaderNames {
    pub color_vertex: GlName,
    pub texture_vertex: GlName,
    pub color_fragment: GlName,
    pub bitmap_fragment: GlName,
    pub gradient_fragment: GlName,
}

/// The calls that compile a shader.
pub open spec fn compile_ops(kind: ShaderKind, name: GlName, text: ShaderText) -> Seq<GlOp> {
    seq![
        GlOp::Create { kind: ResourceKind::Shader(kind), name, on_failure: OnFailure::Panic },
        GlOp::ShaderSource(name, text),
        GlOp::CompileShader(name),
    ]
}

/// The calls that compile all shaders.
pub open spec fn compile_all_ops(names: ShaderNames) -> Seq<GlOp> {
    compile_ops(ShaderKind::Vertex, names.color_vertex, ShaderText::ColorVertex) + compile_ops(
        ShaderKind::Vertex,
        names.texture_vertex,
        ShaderText::TextureVertex,
    ) + compile_ops(ShaderKind::Fragment, names.color_fragment, ShaderText::ColorFragment)
        + compile_ops(ShaderKind::Fragment, names.bitmap_fragment, ShaderText::BitmapFragment)
        + compile_ops(ShaderKind::Fragment, names.gradient_fragment, ShaderText::GradientFragment)
}

/// Compiles a shader. A shader that does not compile shows when the program is
/// linked.
pub fn compile_shader(
    commands: &mut Vec<GlCommand>,
    kind: ShaderKind,
    name: GlName,
    text: ShaderText,
)
    ensures
        calls(final(commands)@) == calls(old(commands)@) + ops(compile_ops(kind, name, text)),
{
    emit_op(
        commands,
        GlOp::Create { kind: ResourceKind::Shader(kind), name, on_failure: OnFailure::Panic },
    );
    emit_op(commands, GlOp::ShaderSource(name, text));
    emit_op(commands, GlOp::CompileShader(name));
    assert(calls(commands@) =~= calls(old(commands)@) + ops(compile_ops(kind, name, text)));
}

/// Compiles all shaders.
pub fn compile_shaders(names: ShaderNames) -> (commands: Vec<GlCommand>)
    ensures
        calls(commands@) == ops(compile_all_ops(names)),
{
    let mut commands: Vec<GlCommand> = no_commands();
    compile_shader(
        &mut commands,
        ShaderKind::Vertex,
        names.color_vertex,
        ShaderText::ColorVertex,
    );
    compile_shader(
        &mut commands,
        ShaderKind::Vertex,
        names.texture_vertex,
        ShaderText::TextureVertex,
    );
    compile_shader(
        &mut commands,
        ShaderKind::Fragment,
        names.color_fragment,
        ShaderText::ColorFragment,
    );
    compile_shader(
        &mut commands,
        ShaderKind::Fragment,
        names.bitmap_fragment,
        ShaderText::BitmapFragment,
    );
    compile_shader(
        &mut commands,
        ShaderKind::Fragment,
        names.gradient_fragment,
        ShaderText::GradientFragment,
    );
    assert(calls(commands@) =~= ops(compile_all_ops(names)));
    commands
}

/// A linked program, with the locations of what it takes.
#[derive(Clone, Copy, Debug)]
pub struct ShaderProgram {
    pub program: GlName,
    pub uniforms: [Option<GlName>; NUM_UNIFORMS],
    pub vertex_position_location: u32,
    pub vertex_color_location: u32,
    pub num_vertex_attributes: u32,
}

/// The vertex and the fragment shader of a program.
pub open spec fn program_shaders(kind: ProgramKind, names: ShaderNames) -> (GlName, GlName) {
    match kind {
        ProgramKind::Color => (names.color_vertex, names.color_fragment),
        ProgramKind::Gradient => (names.texture_vertex, names.gradient_fragment),
        ProgramKind::Bitmap => (names.texture_vertex, names.bitmap_fragment),
    }
}

/// The calls that link a program.
pub open spec fn link_ops(program: GlName, shaders: (GlName, GlName)) -> Seq<GlOp> {
    seq![
        GlOp::Create {
            kind: ResourceKind::Program,
            name: program,
            on_failure: OnFailure::Error(Uncreated::Program),
        },
        GlOp::AttachShader { program, shader: shaders.0 },
        GlOp::AttachShader { program, shader: shaders.1 },
        GlOp::LinkProgram(program),
    ]
}

/// How many of the locations of the two attributes are locations.
pub open spec fn attribute_count(position: u32, color: u32) -> nat {
    (if position != NO_LOCATION {
        1nat
    } else {
        0
    }) + (if color != NO_LOCATION {
        1nat
    } else {
        0
    })
}

/// The calls that describe an attribute to the program, if it has it.
pub open spec fn attribute_pointer_ops(
    location: u32,
    size: i32,
    data_type: AttributeType,
    normalized: bool,
    offset: i32,
) -> Seq<GlOp> {
    if location != NO_LOCATION {
        seq![
            GlOp::VertexAttribPointer {
                location,
                size,
                data_type,
                normalized,
                stride: 12,
                offset,
            },
            GlOp::EnableVertexAttribArray(location),
        ]
    } else {
        Seq::empty()
    }
}

impl ShaderProgram {
    /// The number of attributes is that of the attributes that have a location.
    pub open spec fn wf(self) -> bool {
        self.num_vertex_attributes == attribute_count(
            self.vertex_position_location,
            self.vertex_color_location,
        )
    }

    /// Where the program takes a uniform, if it does.
    pub open spec fn location_of(self, uniform: ShaderUniform) -> Option<GlName> {
        self.uniforms@[uniform.position()]
    }

    /// The calls that describe the layout of vertices to the program.
    pub open spec fn enable_attributes_ops(self) -> Seq<GlOp> {
        attribute_pointer_ops(self.vertex_position_location, 2, AttributeType::Float, false, 0)
            + attribute_pointer_ops(
            self.vertex_color_location,
            4,
            AttributeType::UnsignedByte,
            true,
            8,
        )
    }

    /// The calls that turn off the attributes that the program does not have.
    pub open spec fn disable_attributes_ops(self) -> Seq<GlOp> {
        if self.num_vertex_attributes == 0 {
            seq![GlOp::DisableVertexAttribArray(0), GlOp::DisableVertexAttribArray(1)]
        } else if self.num_vertex_attributes == 1 {
            seq![GlOp::DisableVertexAttribArray(1)]
        } else {
            Seq::empty()
        }
    }

    /// Links a program.
    pub fn link(kind: ProgramKind, program: GlName, names: ShaderNames) -> (commands: Vec<
        GlCommand,
    >)
        ensures
            calls(commands@) == ops(link_ops(program, program_shaders(kind, names))),
    {
        let (vertex_shader, fragment_shader): (GlName, GlName) = match kind {
            ProgramKind::Color => (names.color_vertex, names.color_fragment),
            ProgramKind::Gradient => (names.texture_vertex, names.gradient_fragment),
            ProgramKind::Bitmap => (names.texture_vertex, names.bitmap_fragment),
        };
        let mut commands: Vec<GlCommand> = no_commands();
        emit_op(
            &mut commands,
            GlOp::Create {
                kind: ResourceKind::Program,
                name: program,
                on_failure: OnFailure::Error(Uncreated::Program),
            },
        );
        emit_op(&mut commands, GlOp::AttachShader { program, shader: vertex_shader });
        emit_op(&mut commands, GlOp::AttachShader { program, shader: fragment_shader });
        emit_op(&mut commands, GlOp::LinkProgram(program));
        assert(calls(commands@) =~= ops(link_ops(program, program_shaders(kind, names))));
        commands
    }

    /// Judges the link status of a program, if it has one, with its log.
    pub fn check_link(link_status: Option<bool>, info_log: Option<String>) -> (result: Result<
        (),
        GlError,
    >)
        ensures
            result == if link_status == Some(true) {
                Ok::<(), GlError>(())
            } else {
                Err(GlError::Link(info_log))
            },
    {
        match link_status {
            Some(true) => Ok(()),
            _ => Err(GlError::Link(info_log)),
        }
    }

    /// A linked program, with the locations of the uniforms in the order of
    /// [`uniform_names`] and those of the two attributes, which are negative
    /// where the program does not have the attribute.
    pub fn new(
        program: GlName,
        uniforms: [Option<GlName>; NUM_UNIFORMS],
        position_location: i32,
        color_location: i32,
    ) -> (linked: ShaderProgram)
        ensures
            linked.wf(),
            linked.program == program,
            linked.uniforms == uniforms,
            linked.vertex_position_location == position_location as u32,
            linked.vertex_color_location == color_location as u32,
            linked.num_vertex_attributes == (if position_location == -1 {
                0int
            } else {
                1
            }) + (if color_location == -1 {
                0int
            } else {
                1
            }),
    {
        assert(position_location as u32 == 0xffff_ffffu32 <==> position_location == -1i32)
            by (bit_vector);
        assert(color_location as u32 == 0xffff_ffffu32 <==> color_location == -1i32)
            by (bit_vector);
        let vertex_position_location: u32 = #[verifier::truncate]
        (position_location as u32);
        let vertex_color_location: u32 = #[verifier::truncate]
        (color_location as u32);
        let positions: u32 = if vertex_position_location != NO_LOCATION {
            1
        } else {
            0
        };
        let colors: u32 = if vertex_color_location != NO_LOCATION {
            1
        } else {
            0
        };
        ShaderProgram {
            program,
            uniforms,
            vertex_position_location,
            vertex_color_location,
            num_vertex_attributes: positions + colors,
        }
    }

    /// Where the program takes a uniform, if it does.
    pub fn location(&self, uniform: ShaderUniform) -> (location: Option<GlName>)
        ensures
            location == self.location_of(uniform),
    {
        self.uniforms[uniform.index()]
    }

    pub fn uniform1f(&self, commands: &mut Vec<GlCommand>, uniform: ShaderUniform, value: FloatBits)
        ensures
            calls(final(commands)@) == calls(old(commands)@).push(
                GlCall::Op(GlOp::Uniform1f(self.location_of(uniform), value)),
            ),
    {
        emit_op(commands, GlOp::Uniform1f(self.location(uniform), value));
    }

    pub fn uniform1fv(
        &self,
        commands: &mut Vec<GlCommand>,
        uniform: ShaderUniform,
        values: Vec<FloatBits>,
    )
        ensures
            calls(final(commands)@) == calls(old(commands)@).push(
                GlCall::Uniform1fv { location: self.location_of(uniform), values: values@ },
            ),
    {
        emit(commands, GlCommand::Uniform1fv { location: self.location(uniform), values });
    }

    pub fn uniform1i(&self, commands: &mut Vec<GlCommand>, uniform: ShaderUniform, value: i32)
        ensures
            calls(final(commands)@) == calls(old(commands)@).push(
                GlCall::Op(GlOp::Uniform1i(self.location_of(uniform), value)),
            ),
    {
        emit_op(commands, GlOp::Uniform1i(self.location(uniform), value));
    }

    pub fn uniform4f(&self, commands: &mut Vec<GlCommand>, uniform: ShaderUniform, value: Vec4)
        ensures
            calls(final(commands)@) == calls(old(commands)@).push(
                GlCall::Op(GlOp::Uniform4f(self.location_of(uniform), value)),
            ),
    {
        emit_op(commands, GlOp::Uniform4f(self.location(uniform), value));
    }

    pub fn uniform4fv(
        &self,
        commands: &mut Vec<GlCommand>,
        uniform: ShaderUniform,
        values: Vec<FloatBits>,
    )
        ensures
            calls(final(commands)@) == calls(old(commands)@).push(
                GlCall::Uniform4fv { location: self.location_of(uniform), values: values@ },
            ),
    {
        emit(commands, GlCommand::Uniform4fv { location: self.location(uniform), values });
    }

    pub fn uniform_matrix3fv(
        &self,
        commands: &mut Vec<GlCommand>,
        uniform: ShaderUniform,
        value: Matrix3,
    )
        ensures
            calls(final(commands)@) == calls(old(commands)@).push(
                GlCall::Op(GlOp::UniformMatrix3(self.location_of(uniform), value)),
            ),
    {
        emit_op(commands, GlOp::UniformMatrix3(self.location(uniform), value));
    }

    pub fn uniform_matrix4fv(
        &self,
        commands: &mut Vec<GlCommand>,
        uniform: ShaderUniform,
        value: Matrix4,
    )
        ensures
            calls(final(commands)@) == calls(old(commands)@).push(
                GlCall::Op(GlOp::UniformMatrix4(self.location_of(uniform), value)),
            ),
    {
        emit_op(commands, GlOp::UniformMatrix4(self.location(uniform), value));
    }

    /// Describes the layout of vertices to the program.
    ///
    /// Unfortunately it doesn't seem to be possible to ensure that vertex
    /// attributes will be in a guaranteed position between shaders in WebGL1.
    /// Attributes can change between shaders, even if the vertex layout is
    /// otherwise "the same". This varies between platforms.
    pub fn enable_attributes(&self, commands: &mut Vec<GlCommand>)
        ensures
            calls(final(commands)@) == calls(old(commands)@) + ops(self.enable_attributes_ops()),
    {
        if self.vertex_position_location != NO_LOCATION {
            emit_op(
                commands,
                GlOp::VertexAttribPointer {
                    location: self.vertex_position_location,
                    size: 2,
                    data_type: AttributeType::Float,
                    normalized: false,
                    stride: 12,
                    offset: 0,
                },
            );
            emit_op(commands, GlOp::EnableVertexAttribArray(self.vertex_position_location));
        }
        if self.vertex_color_location != NO_LOCATION {
            emit_op(
                commands,
                GlOp::VertexAttribPointer {
                    location: self.vertex_color_location,
                    size: 4,
                    data_type: AttributeType::UnsignedByte,
                    normalized: true,
                    stride: 12,
                    offset: 8,
                },
            );
            emit_op(commands, GlOp::EnableVertexAttribArray(self.vertex_color_location));
        }
        assert(calls(commands@) =~= calls(old(commands)@) + ops(self.enable_attributes_ops()));
    }

    /// Turns off the attributes that the program does not have.
    pub fn disable_attributes(&self, commands: &mut Vec<GlCommand>)
        ensures
            calls(final(commands)@) == calls(old(commands)@) + ops(self.disable_attributes_ops()),
    {
        let mut i: u32 = self.num_vertex_attributes;
        let ghost start = calls(commands@);
        while i < NUM_VERTEX_ATTRIBUTES
            invariant
                i >= self.num_vertex_attributes,
                i <= NUM_VERTEX_ATTRIBUTES || i == self.num_vertex_attributes,
                calls(commands@) == start + ops(
                    self.disable_attributes_ops().take(i - self.num_vertex_attributes),
                ),
            decreases NUM_VERTEX_ATTRIBUTES - i,
        {
            emit_op(commands, GlOp::DisableVertexAttribArray(i));
            assert(calls(commands@) =~= start + ops(
                self.disable_attributes_ops().take(i + 1 - self.num_vertex_attributes),
            ));
            i += 1;
        }
        assert(calls(commands@) =~= start + ops(self.disable_attributes_ops()));
    }
}

/// Each uniform is looked up under its own name.
pub proof fn law_uniforms_have_names(uniform: ShaderUniform)
    ensures
        uniform_name_seq()[uniform.position()] == match uniform {
            ShaderUniform::WorldMatrix => "world_matrix",
            ShaderUniform::ViewMatrix => "view_matrix",
            ShaderUniform::MultColor => "mult_color",
            ShaderUniform::AddColor => "add_color",
            ShaderUniform::TextureMatrix => "u_matrix",
            ShaderUniform::GradientType => "u_gradient_type",
            ShaderUniform::GradientRatios => "u_ratios",
            ShaderUniform::GradientColors => "u_colors",
            ShaderUniform::GradientNumColors => "u_num_colors",
            ShaderUniform::GradientRepeatMode => "u_repeat_mode",
            ShaderUniform::GradientFocalPoint => "u_focal_point",
            ShaderUniform::GradientInterpolation => "u_interpolation",
            ShaderUniform::BitmapTexture => "u_texture",
        },
{
}

/// The shaders of the graphics library: their kinds and texts, the texts that
/// were compiled, what is attached to programs, and the texts that programs were
/// linked from.
pub struct ShaderModel {
    pub kinds: Map<GlName, ShaderKind>,
    pub texts: Map<GlName, ShaderText>,
    pub compiled: Map<GlName, ShaderText>,
    pub attached: Map<(GlName, ShaderKind), GlName>,
    pub linked: Map<(GlName, ShaderKind), ShaderText>,
}

impl ShaderModel {
    /// What a call changes.
    pub open spec fn apply(self, op: GlOp) -> ShaderModel {
        match op {
            GlOp::Create { kind: ResourceKind::Shader(kind), name, .. } => ShaderModel {
                kinds: self.kinds.insert(name, kind),
                ..self
            },
            GlOp::ShaderSource(name, text) => ShaderModel {
                texts: self.texts.insert(name, text),
                ..self
            },
            GlOp::CompileShader(name) => ShaderModel {
                compiled: self.compiled.insert(name, self.texts[name]),
                ..self
            },
            GlOp::AttachShader { program, shader } => ShaderModel {
                attached: self.attached.insert((program, self.kinds[shader]), shader),
                ..self
            },
            GlOp::LinkProgram(program) => ShaderModel {
                linked: self.linked.insert(
                    (program, ShaderKind::Vertex),
                    self.compiled[self.attached[(program, ShaderKind::Vertex)]],
                ).insert(
                    (program, ShaderKind::Fragment),
                    self.compiled[self.attached[(program, ShaderKind::Fragment)]],
                ),
                ..self
            },
            _ => self,
        }
    }

    /// What calls change, one after the other.
    pub open spec fn run(self, ops: Seq<GlOp>) -> ShaderModel
        decreases ops.len(),
    {
        if ops.len() == 0 {
            self
        } else {
            self.run(ops.drop_last()).apply(ops.last())
        }
    }

    /// A shader of a kind is compiled from a text.
    pub open spec fn has(self, name: GlName, kind: ShaderKind, text: ShaderText) -> bool {
        &&& self.kinds.contains_key(name)
        &&& self.kinds[name] == kind
        &&& self.compiled.contains_key(name)
        &&& self.compiled[name] == text
    }
}

/// Calls that take shaders through states: after each, they are in the next.
proof fn lemma_shader_steps(states: Seq<ShaderModel>, some_ops: Seq<GlOp>)
    requires
        states.len() == some_ops.len() + 1,
        forall|i: int|
            0 <= i < some_ops.len() ==> states[i + 1] == states[i].apply(#[trigger] some_ops[i]),
    ensures
        states[0].run(some_ops) == states.last(),
    decreases some_ops.len(),
{
    if some_ops.len() > 0 {
        let rest = some_ops.drop_last();
        let fewer = states.drop_last();
        assert forall|i: int| 0 <= i < rest.len() implies fewer[i + 1] == fewer[i].apply(
            #[trigger] rest[i],
        ) by {
            assert(rest[i] == some_ops[i]);
        }
        lemma_shader_steps(fewer, rest);
        let last = some_ops.len() - 1;
        assert(states[last + 1] == states[last].apply(some_ops[last]));
    }
}

proof fn lemma_shaders_concat(shaders: ShaderModel, first: Seq<GlOp>, second: Seq<GlOp>)
    ensures
        shaders.run(first + second) == shaders.run(first).run(second),
    decreases second.len(),
{
    let both = first + second;
    if second.len() == 0 {
        assert(both =~= first);
    } else {
        assert(both.drop_last() =~= first + second.drop_last());
        assert(both.last() == second.last());
        lemma_shaders_concat(shaders, first, second.drop_last());
    }
}

/// The names of the shaders are different.
pub open spec fn shader_names_differ(names: ShaderNames) -> bool {
    &&& names.color_vertex != names.texture_vertex
    &&& names.color_vertex != names.color_fragment
    &&& names.color_vertex != names.bitmap_fragment
    &&& names.color_vertex != names.gradient_fragment
    &&& names.texture_vertex != names.color_fragment
    &&& names.texture_vertex != names.bitmap_fragment
    &&& names.texture_vertex != names.gradient_fragment
    &&& names.color_fragment != names.bitmap_fragment
    &&& names.color_fragment != names.gradient_fragment
    &&& names.bitmap_fragment != names.gradient_fragment
}

/// Compiling a shader leaves it compiled from its text, and the others alone.
proof fn lemma_shader_is_compiled(
    shaders: ShaderModel,
    kind: ShaderKind,
    name: GlName,
    text: ShaderText,
)
    ensures
        ({
            let after = shaders.run(compile_ops(kind, name, text));
            &&& after.has(name, kind, text)
            &&& forall|other: GlName, other_kind: ShaderKind, other_text: ShaderText|
                other != name ==> #[trigger] after.has(other, other_kind, other_text)
                    == shaders.has(other, other_kind, other_text)
        }),
{
    let all = compile_ops(kind, name, text);
    let s1 = shaders.apply(all[0]);
    let s2 = s1.apply(all[1]);
    let s3 = s2.apply(all[2]);
    lemma_shader_steps(seq![shaders, s1, s2, s3], all);
}

/// Each program is linked from its own vertex and fragment shader: shapes of one
/// color from those for colors; gradients and bitmaps from the vertex shader that
/// places textures, and from their fragment shaders.
pub proof fn law_programs_are_linked(
    names: ShaderNames,
    kind: ProgramKind,
    program: GlName,
    shaders: ShaderModel,
)
    requires
        shader_names_differ(names),
    ensures
        ({
            let compiled = shaders.run(compile_all_ops(names));
            let after = compiled.run(link_ops(program, program_shaders(kind, names)));
            &&& after.linked.contains_key((program, ShaderKind::Vertex))
            &&& after.linked.contains_key((program, ShaderKind::Fragment))
            &&& after.linked[(program, ShaderKind::Vertex)] == match kind {
                ProgramKind::Color => ShaderText::ColorVertex,
                ProgramKind::Gradient => ShaderText::TextureVertex,
                ProgramKind::Bitmap => ShaderText::TextureVertex,
            }
            &&& after.linked[(program, ShaderKind::Fragment)] == match kind {
                ProgramKind::Color => ShaderText::ColorFragment,
                ProgramKind::Gradient => ShaderText::GradientFragment,
                ProgramKind::Bitmap => ShaderText::BitmapFragment,
            }
        }),
{
    let vertex = ShaderKind::Vertex;
    let fragment = ShaderKind::Fragment;
    let c1 = compile_ops(vertex, names.color_vertex, ShaderText::ColorVertex);
    let c2 = compile_ops(vertex, names.texture_vertex, ShaderText::TextureVertex);
    let c3 = compile_ops(fragment, names.color_fragment, ShaderText::ColorFragment);
    let c4 = compile_ops(fragment, names.bitmap_fragment, ShaderText::BitmapFragment);
    let c5 = compile_ops(fragment, names.gradient_fragment, ShaderText::GradientFragment);
    lemma_shaders_concat(shaders, c1 + c2 + c3 + c4, c5);
    lemma_shaders_concat(shaders, c1 + c2 + c3, c4);
    lemma_shaders_concat(shaders, c1 + c2, c3);
    lemma_shaders_concat(shaders, c1, c2);
    let s1 = shaders.run(c1);
    let s2 = s1.run(c2);
    let s3 = s2.run(c3);
    let s4 = s3.run(c4);
    let s5 = s4.run(c5);
    lemma_shader_is_compiled(shaders, vertex, names.color_vertex, ShaderText::ColorVertex);
    lemma_shader_is_compiled(s1, vertex, names.texture_vertex, ShaderText::TextureVertex);
    lemma_shader_is_compiled(s2, fragment, names.color_fragment, ShaderText::ColorFragment);
    lemma_shader_is_compiled(s3, fragment, names.bitmap_fragment, ShaderText::BitmapFragment);
    lemma_shader_is_compiled(s4, fragment, names.gradient_fragment, ShaderText::GradientFragment);
    assert(shaders.run(compile_all_ops(names)) == s5);
    assert(s5.has(names.color_vertex, vertex, ShaderText::ColorVertex));
    assert(s5.has(names.texture_vertex, vertex, ShaderText::TextureVertex));
    assert(s5.has(names.color_fragment, fragment, ShaderText::ColorFragment));
    assert(s5.has(names.bitmap_fragment, fragment, ShaderText::BitmapFragment));
    assert(s5.has(names.gradient_fragment, fragment, ShaderText::GradientFragment));
    let links = link_ops(program, program_shaders(kind, names));
    let l1 = s5.apply(links[0]);
    let l2 = l1.apply(links[1]);
    let l3 = l2.apply(links[2]);
    let l4 = l3.apply(links[3]);
    lemma_shader_steps(seq![s5, l1, l2, l3, l4], links);
}

/// A program takes a uniform where the host found the name of the uniform: the
/// locations are in the order of the names.
pub proof fn law_uniforms_are_taken_by_name(
    program: ShaderProgram,
    uniform: ShaderUniform,
    at: int,
)
    requires
        0 <= at < 13,
        uniform_name_seq()[at] == match uniform {
            ShaderUniform::WorldMatrix => "world_matrix",
            ShaderUniform::ViewMatrix => "view_matrix",
            ShaderUniform::MultColor => "mult_color",
            ShaderUniform::AddColor => "add_color",
            ShaderUniform::TextureMatrix => "u_matrix",
            ShaderUniform::GradientType => "u_gradient_type",
            ShaderUniform::GradientRatios => "u_ratios",
            ShaderUniform::GradientColors => "u_colors",
            ShaderUniform::GradientNumColors => "u_num_colors",
            ShaderUniform::GradientRepeatMode => "u_repeat_mode",
            ShaderUniform::GradientFocalPoint => "u_focal_point",
            ShaderUniform::GradientInterpolation => "u_interpolation",
            ShaderUniform::BitmapTexture => "u_texture",
        },
    ensures
        program.location_of(uniform) == program.uniforms@[at],
{
    reveal_strlit("world_matrix");
    reveal_strlit("view_matrix");
    reveal_strlit("mult_color");
    reveal_strlit("add_color");
    reveal_strlit("u_matrix");
    reveal_strlit("u_gradient_type");
    reveal_strlit("u_ratios");
    reveal_strlit("u_colors");
    reveal_strlit("u_num_colors");
    reveal_strlit("u_repeat_mode");
    reveal_strlit("u_focal_point");
    reveal_strlit("u_interpolation");
    reveal_strlit("u_texture");
    let name = uniform_name_seq()[at]@;
    let own = uniform_name_seq()[uniform.position()]@;
    assert(name == own);
    assert(name.len() == own.len());
    assert(name[0] == own[0] && name[2] == own[2] && name[3] == own[3]);
}

} // verus!
