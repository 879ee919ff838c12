//! Meshes: what is drawn, and how its vertices and indices are laid out for the
//! graphics library.
use vstd::prelude::*;

use crate::float::FloatBits;
use crate::geometry::{Matrix3, Vec4};
use crate::gl::{
    emit, emit_op, BufferTarget, GlCommand, GlName, GlOp, OnFailure, ResourceKind, Uncreated,
    VertexArrayApi,
};
use crate::shader::{ProgramKind, ShaderProgram};

verus! {

use crate::gl::{calls, ops, GlCall};

/// The most colors that the gradient shader takes.
pub const MAX_GRADIENT_COLORS: usize = 15;

/// The number by which a bitmap is known.
pub type CharacterId = u16;

/// A corner of a triangle.
#[derive(Clone, Copy, PartialEq, Eq, Structural, Debug)]
pub struct Vertex {
    pub x: FloatBits,
    pub y: FloatBits,
    pub color: u32,
}

#[derive(Clone, Copy, PartialEq, Eq, Structural, Debug)]
pub enum GradientType {
    Linear,
    Radial,
    Focal,
}

#[derive(Clone, Copy, PartialEq, Eq, Structural, Debug)]
pub enum GradientSpread {
    Pad,
    Repeat,
    Reflect,
}

#[derive(Clone, Copy, PartialEq, Eq, Structural, Debug)]
pub enum GradientInterpolation {
    Rgb,
    LinearRgb,
}

/// A gradient, as the tessellator describes it.
#[derive(Debug)]
pub struct TessGradient {
    pub matrix: Matrix3,
    pub gradient_type: GradientType,
    pub ratios: Vec<FloatBits>,
    pub colors: Vec<Vec4>,
    /// The colors, converted to the linear color space. Only read for a gradient
    /// that is interpolated there.
    pub linear_colors: Vec<Vec4>,
    pub num_colors: u32,
    pub repeat_mode: GradientSpread,
    pub focal_point: FloatBits,
    pub interpolation: GradientInterpolation,
}

#[derive(Clone, Copy, PartialEq, Eq, Structural, Debug)]
pub struct BitmapDraw {
    pub matrix: Matrix3,
    pub id: CharacterId,
    pub is_repeating: bool,
    pub is_smoothed: bool,
}

#[derive(Debug)]
pub enum TessDrawType {
    Color,
    Gradient(TessGradient),
    Bitmap(BitmapDraw),
}

/// Triangles that are drawn in one go, as the tessellator describes them.
#[derive(Debug)]
pub struct TessDraw {
    pub draw_type: TessDrawType,
    pub vertices: Vec<Vertex>,
    pub indices: Vec<u32>,
}

/// A gradient, as the gradient shader takes it.
#[derive(Debug)]
pub struct Gradient {
    pub matrix: Matrix3,
    pub gradient_type: i32,
    pub ratios: Vec<FloatBits>,
    pub colors: Vec<Vec4>,
    pub num_colors: u32,
    pub repeat_mode: i32,
    pub focal_point: FloatBits,
    pub interpolation: GradientInterpolation,
}

#[derive(Debug)]
pub enum DrawType {
    Color,
    Gradient(Gradient),
    Bitmap(BitmapDraw),
}

/// Triangles that are drawn in one go.
#[derive(Debug)]
pub struct Draw {
    pub draw_type: DrawType,
    pub vertex_buffer: GlName,
    pub index_buffer: GlName,
    pub vao: GlName,
    pub num_indices: i32,
}

#[derive(Debug)]
pub struct Mesh {
    pub draws: Vec<Draw>,
}

/// The names that the objects for triangles go by.
#[derive(Clone, Copy, PartialEq, Eq, Structural, Debug)]
pub struct DrawNames {
    pub vao: GlName,
    pub vertex_buffer: GlName,
    pub index_buffer: GlName,
}

/// A [`Gradient`], with its data as sequences.
pub struct GradientView {
    pub matrix: Matrix3,
    pub gradient_type: i32,
    pub ratios: Seq<FloatBits>,
    pub colors: Seq<Vec4>,
    pub num_colors: u32,
    pub repeat_mode: i32,
    pub focal_point: FloatBits,
    pub interpolation: GradientInterpolation,
}

/// A [`DrawType`], with its data as sequences.
pub enum DrawTypeView {
    Color,
    Gradient(GradientView),
    Bitmap(BitmapDraw),
}

/// A [`Draw`], with its data as sequences.
pub struct DrawView {
    pub draw_type: DrawTypeView,
    pub vertex_buffer: GlName,
    pub index_buffer: GlName,
    pub vao: GlName,
    pub num_indices: i32,
}

impl View for Gradient {
    type V = GradientView;

    open spec fn view(&self) -> GradientView {
        GradientView {
            matrix: self.matrix,
            gradient_type: self.gradient_type,
            ratios: self.ratios@,
            colors: self.colors@,
            num_colors: self.num_colors,
            repeat_mode: self.repeat_mode,
            focal_point: self.focal_point,
            interpolation: self.interpolation,
        }
    }
}

impl View for DrawType {
    type V = DrawTypeView;

    open spec fn view(&self) -> DrawTypeView {
        match *self {
            DrawType::Color => DrawTypeView::Color,
            DrawType::Gradient(gradient) => DrawTypeView::Gradient(gradient@),
            DrawType::Bitmap(bitmap) => DrawTypeView::Bitmap(bitmap),
        }
    }
}

impl View for Draw {
    type V = DrawView;

    open spec fn view(&self) -> DrawView {
        DrawView {
            draw_type: self.draw_type@,
            vertex_buffer: self.vertex_buffer,
            index_buffer: self.index_buffer,
            vao: self.vao,
            num_indices: self.num_indices,
        }
    }
}

impl View for Mesh {
    type V = Seq<DrawView>;

    open spec fn view(&self) -> Seq<DrawView> {
        self.draws@.map_values(|draw: Draw| draw@)
    }
}

/// The meshes of a list, with their data as sequences.
pub open spec fn mesh_views(meshes: Seq<Mesh>) -> Seq<Seq<DrawView>> {
    meshes.map_values(|mesh: Mesh| mesh@)
}

/// The bytes of a number, the lowest first.
pub open spec fn u32_bytes(n: u32) -> Seq<u8> {
    seq![
        (n % 0x100) as u8,
        (n / 0x100 % 0x100) as u8,
        (n / 0x1_0000 % 0x100) as u8,
        (n / 0x100_0000) as u8,
    ]
}

/// The bytes of the lower half of a number, the lowest first.
pub open spec fn u16_bytes(n: u32) -> Seq<u8> {
    seq![(n % 0x100) as u8, (n / 0x100 % 0x100) as u8]
}

impl Vertex {
    /// The bytes of a vertex: those of its position, then those of its color.
    pub open spec fn bytes(self) -> Seq<u8> {
        u32_bytes(self.x.bits) + u32_bytes(self.y.bits) + u32_bytes(self.color)
    }
}

/// The bytes of vertices, one after the other.
pub open spec fn vertex_data(vertices: Seq<Vertex>) -> Seq<u8>
    decreases vertices.len(),
{
    if vertices.len() == 0 {
        Seq::empty()
    } else {
        vertex_data(vertices.drop_last()) + vertices.last().bytes()
    }
}

/// The bytes of indices, one after the other, with 16 bits each.
pub open spec fn index_data(indices: Seq<u32>) -> Seq<u8>
    decreases indices.len(),
{
    if indices.len() == 0 {
        Seq::empty()
    } else {
        index_data(indices.drop_last()) + u16_bytes(indices.last())
    }
}

fn push_u32(bytes: &mut Vec<u8>, n: u32)
    ensures
        final(bytes)@ == old(bytes)@ + u32_bytes(n),
{
    bytes.push((n % 0x100) as u8);
    bytes.push((n / 0x100 % 0x100) as u8);
    bytes.push((n / 0x1_0000 % 0x100) as u8);
    bytes.push((n / 0x100_0000) as u8);
    assert(bytes@ =~= old(bytes)@ + u32_bytes(n));
}

/// The bytes of vertices.
pub fn vertex_bytes(vertices: &Vec<Vertex>) -> (bytes: Vec<u8>)
    ensures
        bytes@ == vertex_data(vertices@),
{
    let mut bytes: Vec<u8> = Vec::new();
    let mut i: usize = 0;
    while i < vertices.len()
        invariant
            i <= vertices.len(),
            bytes@ == vertex_data(vertices@.take(i as int)),
        decreases vertices.len() - i,
    {
        let ghost start = bytes@;
        let vertex: Vertex = vertices[i];
        push_u32(&mut bytes, vertex.x.bits);
        push_u32(&mut bytes, vertex.y.bits);
        push_u32(&mut bytes, vertex.color);
        proof {
            let next = vertices@.take(i + 1);
            assert(next.drop_last() =~= vertices@.take(i as int));
            assert(bytes@ =~= start + vertex.bytes());
        }
        i += 1;
    }
    assert(vertices@.take(i as int) =~= vertices@);
    bytes
}

/// The bytes of indices, of which the lower 16 bits count.
pub fn index_bytes(indices: &Vec<u32>) -> (bytes: Vec<u8>)
    ensures
        bytes@ == index_data(indices@),
{
    let mut bytes: Vec<u8> = Vec::new();
    let mut i: usize = 0;
    while i < indices.len()
        invariant
            i <= indices.len(),
            bytes@ == index_data(indices@.take(i as int)),
        decreases indices.len() - i,
    {
        let ghost start = bytes@;
        let n: u32 = indices[i];
        bytes.push((n % 0x100) as u8);
        bytes.push((n / 0x100 % 0x100) as u8);
        proof {
            let next = indices@.take(i + 1);
            assert(next.drop_last() =~= indices@.take(i as int));
            assert(bytes@ =~= start + u16_bytes(n));
        }
        i += 1;
    }
    assert(indices@.take(i as int) =~= indices@);
    bytes
}

/// Vertices are 12 bytes apart. Where one begins there are the bytes of its
/// position, and 8 bytes further those of its color, as the programs are told.
pub proof fn law_vertex_layout(vertices: Seq<Vertex>, i: int)
    requires
        0 <= i < vertices.len(),
    ensures
        vertex_data(vertices).len() == 12 * vertices.len(),
        vertex_data(vertices).subrange(12 * i, 12 * i + 8) == u32_bytes(vertices[i].x.bits)
            + u32_bytes(vertices[i].y.bits),
        vertex_data(vertices).subrange(12 * i + 8, 12 * i + 12) == u32_bytes(vertices[i].color),
    decreases vertices.len(),
{
    let data = vertex_data(vertices);
    let rest = vertices.drop_last();
    let before = vertex_data(rest);
    if rest.len() > 0 {
        law_vertex_layout(rest, if i < rest.len() {
            i
        } else {
            0
        });
    } else {
        assert(before.len() == 0);
    }
    if i < rest.len() {
        assert(data.subrange(12 * i, 12 * i + 8) =~= before.subrange(12 * i, 12 * i + 8));
        assert(data.subrange(12 * i + 8, 12 * i + 12) =~= before.subrange(12 * i + 8, 12 * i + 12));
    } else {
        assert(data.subrange(12 * i, 12 * i + 8) =~= u32_bytes(vertices[i].x.bits) + u32_bytes(
            vertices[i].y.bits,
        ));
        assert(data.subrange(12 * i + 8, 12 * i + 12) =~= u32_bytes(vertices[i].color));
    }
}

/// An index reads back from the two bytes at its place, up to multiples of
/// 65536; an index below 65536 reads back as it is.
pub proof fn law_index_reads_back(indices: Seq<u32>, i: int)
    requires
        0 <= i < indices.len(),
    ensures
        index_data(indices).len() == 2 * indices.len(),
        index_data(indices)[2 * i] + 0x100 * index_data(indices)[2 * i + 1] == indices[i]
            % 0x1_0000,
        indices[i] < 0x1_0000 ==> index_data(indices)[2 * i] + 0x100 * index_data(indices)[2 * i
            + 1] == indices[i],
    decreases indices.len(),
{
    let rest = indices.drop_last();
    if rest.len() > 0 {
        law_index_reads_back(rest, if i < rest.len() {
            i
        } else {
            0
        });
    } else {
        assert(index_data(rest).len() == 0);
    }
    if i < rest.len() {
        assert(index_data(indices)[2 * i] == index_data(rest)[2 * i]);
        assert(index_data(indices)[2 * i + 1] == index_data(rest)[2 * i + 1]);
    } else {
        let n = indices[i];
        assert(index_data(indices)[2 * i] == u16_bytes(n)[0]);
        assert(index_data(indices)[2 * i + 1] == u16_bytes(n)[1]);
    }
}

/// How many colors of a gradient the shader takes.
pub open spec fn color_count(num_colors: u32) -> nat {
    if num_colors < MAX_GRADIENT_COLORS {
        num_colors as nat
    } else {
        MAX_GRADIENT_COLORS as nat
    }
}

/// How many colors of a gradient the shader takes.
fn used_colors(num_colors: u32) -> (count: usize)
    ensures
        count == color_count(num_colors),
{
    if num_colors < MAX_GRADIENT_COLORS as u32 {
        num_colors as usize
    } else {
        MAX_GRADIENT_COLORS
    }
}

/// The first `count` values, with the last of them repeated up to
/// `MAX_GRADIENT_COLORS`.
pub open spec fn padded<A>(values: Seq<A>, count: nat) -> Seq<A> {
    Seq::new(
        MAX_GRADIENT_COLORS as nat,
        |i: int|
            if i < count {
                values[i]
            } else {
                values[count - 1]
            },
    )
}

fn pad<A: Copy>(values: &Vec<A>, count: usize) -> (all: Vec<A>)
    requires
        0 < count <= MAX_GRADIENT_COLORS,
        count <= values.len(),
    ensures
        all@ == padded(values@, count as nat),
{
    let mut all: Vec<A> = Vec::new();
    let mut i: usize = 0;
    while i < MAX_GRADIENT_COLORS
        invariant
            i <= MAX_GRADIENT_COLORS,
            0 < count <= MAX_GRADIENT_COLORS,
            count <= values.len(),
            all.len() == i,
            forall|j: int| 0 <= j < i ==> all@[j] == padded(values@, count as nat)[j],
        decreases MAX_GRADIENT_COLORS - i,
    {
        let value: A = if i < count {
            values[i]
        } else {
            values[count - 1]
        };
        all.push(value);
        i += 1;
    }
    assert(all@ =~= padded(values@, count as nat));
    all
}

impl TessGradient {
    /// There is a color, and as many ratios and colors as the shader takes of
    /// them.
    pub open spec fn wf(self) -> bool {
        let count = color_count(self.num_colors);
        &&& self.num_colors > 0
        &&& self.ratios@.len() >= count
        &&& self.colors@.len() >= count
        &&& self.interpolation == GradientInterpolation::LinearRgb ==> self.linear_colors@.len()
            >= count
    }

    /// Whether there is a color, and as many ratios and colors as the shader
    /// takes of them.
    pub fn is_complete(&self) -> (complete: bool)
        ensures
            complete == self.wf(),
    {
        let count: usize = used_colors(self.num_colors);
        self.num_colors > 0 && self.ratios.len() >= count && self.colors.len() >= count && (
        self.interpolation != GradientInterpolation::LinearRgb || self.linear_colors.len() >= count)
    }

    /// The colors that the gradient is interpolated between.
    pub open spec fn effective_colors(self) -> Seq<Vec4> {
        match self.interpolation {
            GradientInterpolation::LinearRgb => self.linear_colors@,
            GradientInterpolation::Rgb => self.colors@,
        }
    }

    /// The gradient as the shader takes it.
    pub open spec fn for_shader(self) -> GradientView {
        GradientView {
            matrix: self.matrix,
            gradient_type: match self.gradient_type {
                GradientType::Linear => 0,
                GradientType::Radial => 1,
                GradientType::Focal => 2,
            },
            ratios: padded(self.ratios@, color_count(self.num_colors)),
            colors: padded(self.effective_colors(), color_count(self.num_colors)),
            num_colors: self.num_colors,
            repeat_mode: match self.repeat_mode {
                GradientSpread::Pad => 0,
                GradientSpread::Repeat => 1,
                GradientSpread::Reflect => 2,
            },
            focal_point: self.focal_point,
            interpolation: self.interpolation,
        }
    }

    /// The gradient as the shader takes it.
    pub fn to_shader(&self) -> (gradient: Gradient)
        requires
            self.wf(),
        ensures
            gradient@ == self.for_shader(),
    {
        let count: usize = used_colors(self.num_colors);
        let ratios: Vec<FloatBits> = pad(&self.ratios, count);
        let colors: Vec<Vec4> = match self.interpolation {
            GradientInterpolation::LinearRgb => pad(&self.linear_colors, count),
            GradientInterpolation::Rgb => pad(&self.colors, count),
        };
        Gradient {
            matrix: self.matrix,
            gradient_type: match self.gradient_type {
                GradientType::Linear => 0,
                GradientType::Radial => 1,
                GradientType::Focal => 2,
            },
            ratios,
            colors,
            num_colors: self.num_colors,
            repeat_mode: match self.repeat_mode {
                GradientSpread::Pad => 0,
                GradientSpread::Repeat => 1,
                GradientSpread::Reflect => 2,
            },
            focal_point: self.focal_point,
            interpolation: self.interpolation,
        }
    }
}

/// The numbers of vectors, one after the other.
pub open spec fn flattened(vectors: Seq<Vec4>) -> Seq<FloatBits>
    decreases vectors.len(),
{
    if vectors.len() == 0 {
        Seq::empty()
    } else {
        flattened(vectors.drop_last()) + vectors.last().numbers()
    }
}

/// The numbers of vectors, one after the other.
pub fn flatten(vectors: &Vec<Vec4>) -> (numbers: Vec<FloatBits>)
    ensures
        numbers@ == flattened(vectors@),
{
    let mut numbers: Vec<FloatBits> = Vec::new();
    let mut i: usize = 0;
    while i < vectors.len()
        invariant
            i <= vectors.len(),
            numbers@ == flattened(vectors@.take(i as int)),
        decreases vectors.len() - i,
    {
        let ghost start = numbers@;
        let vector: Vec4 = vectors[i];
        numbers.push(vector.x);
        numbers.push(vector.y);
        numbers.push(vector.z);
        numbers.push(vector.w);
        proof {
            assert(vectors@.take(i + 1).drop_last() =~= vectors@.take(i as int));
            assert(numbers@ =~= start + vector.numbers());
        }
        i += 1;
    }
    assert(vectors@.take(i as int) =~= vectors@);
    numbers
}

impl TessDraw {
    /// Whether a gradient has colors.
    pub fn is_complete(&self) -> (complete: bool)
        ensures
            complete == self.wf(),
    {
        match &self.draw_type {
            TessDrawType::Gradient(gradient) => gradient.is_complete(),
            _ => true,
        }
    }

    /// A gradient has colors.
    pub open spec fn wf(self) -> bool {
        self.draw_type matches TessDrawType::Gradient(gradient) ==> gradient.wf()
    }

    /// The program that the triangles are drawn with.
    pub open spec fn program(self) -> ProgramKind {
        match self.draw_type {
            TessDrawType::Color => ProgramKind::Color,
            TessDrawType::Gradient(_) => ProgramKind::Gradient,
            TessDrawType::Bitmap(_) => ProgramKind::Bitmap,
        }
    }

    /// What is kept of the triangles.
    pub open spec fn kept(self, names: DrawNames) -> DrawView {
        DrawView {
            draw_type: match self.draw_type {
                TessDrawType::Color => DrawTypeView::Color,
                TessDrawType::Gradient(gradient) => DrawTypeView::Gradient(gradient.for_shader()),
                TessDrawType::Bitmap(bitmap) => DrawTypeView::Bitmap(bitmap),
            },
            vertex_buffer: names.vertex_buffer,
            index_buffer: names.index_buffer,
            vao: names.vao,
            num_indices: self.indices@.len() as i32,
        }
    }

    /// The program that the triangles are drawn with, and what is kept of them.
    pub fn keep(&self, names: DrawNames) -> (result: (ProgramKind, Draw))
        requires
            self.wf(),
        ensures
            result.0 == self.program(),
            result.1@ == self.kept(names),
    {
        let num_indices: i32 = #[verifier::truncate]
        (self.indices.len() as i32);
        let (program, draw_type): (ProgramKind, DrawType) = match &self.draw_type {
            TessDrawType::Color => (ProgramKind::Color, DrawType::Color),
            TessDrawType::Gradient(gradient) => (
                ProgramKind::Gradient,
                DrawType::Gradient(gradient.to_shader()),
            ),
            TessDrawType::Bitmap(bitmap) => (ProgramKind::Bitmap, DrawType::Bitmap(*bitmap)),
        };
        (
            program,
            Draw {
                draw_type,
                vertex_buffer: names.vertex_buffer,
                index_buffer: names.index_buffer,
                vao: names.vao,
                num_indices,
            },
        )
    }
}

/// The calls that create and bind a vertex array object.
pub open spec fn create_vertex_array_ops(
    api: VertexArrayApi,
    vao: GlName,
    on_failure: OnFailure,
) -> Seq<GlOp> {
    seq![
        GlOp::Create { kind: ResourceKind::VertexArray(api), name: vao, on_failure },
        GlOp::BindVertexArray(api, Some(vao)),
    ]
}

/// The calls that create a buffer and fill it.
pub open spec fn buffer_calls(target: BufferTarget, name: GlName, bytes: Seq<u8>) -> Seq<GlCall> {
    seq![
        GlCall::Op(
            GlOp::Create { kind: ResourceKind::Buffer, name, on_failure: OnFailure::Panic },
        ),
        GlCall::Op(GlOp::BindBuffer(target, name)),
        GlCall::BufferData { target, bytes },
    ]
}

/// The calls that hand triangles over to the graphics library.
pub open spec fn upload_calls(
    api: VertexArrayApi,
    names: DrawNames,
    on_failure: OnFailure,
    vertices: Seq<Vertex>,
    indices: Seq<u32>,
) -> Seq<GlCall> {
    ops(create_vertex_array_ops(api, names.vao, on_failure)) + buffer_calls(
        BufferTarget::Array,
        names.vertex_buffer,
        vertex_data(vertices),
    ) + buffer_calls(BufferTarget::ElementArray, names.index_buffer, index_data(indices))
}

/// Creates and binds a new vertex array object.
pub fn create_vertex_array(
    commands: &mut Vec<GlCommand>,
    api: VertexArrayApi,
    vao: GlName,
    on_failure: OnFailure,
)
    ensures
        calls(final(commands)@) == calls(old(commands)@) + ops(
            create_vertex_array_ops(api, vao, on_failure),
        ),
{
    emit_op(commands, GlOp::Create { kind: ResourceKind::VertexArray(api), name: vao, on_failure });
    emit_op(commands, GlOp::BindVertexArray(api, Some(vao)));
    assert(calls(commands@) =~= calls(old(commands)@) + ops(
        create_vertex_array_ops(api, vao, on_failure),
    ));
}

/// Creates a buffer and fills it.
pub fn create_buffer(
    commands: &mut Vec<GlCommand>,
    target: BufferTarget,
    name: GlName,
    bytes: Vec<u8>,
)
    ensures
        calls(final(commands)@) == calls(old(commands)@) + buffer_calls(target, name, bytes@),
{
    emit_op(
        commands,
        GlOp::Create { kind: ResourceKind::Buffer, name, on_failure: OnFailure::Panic },
    );
    emit_op(commands, GlOp::BindBuffer(target, name));
    let ghost data = bytes@;
    emit(commands, GlCommand::BufferData { target, bytes });
    assert(calls(commands@) =~= calls(old(commands)@) + buffer_calls(target, name, data));
}

/// Hands triangles over to the graphics library.
pub fn upload(
    commands: &mut Vec<GlCommand>,
    api: VertexArrayApi,
    names: DrawNames,
    on_failure: OnFailure,
    vertices: &Vec<Vertex>,
    indices: &Vec<u32>,
)
    ensures
        calls(final(commands)@) == calls(old(commands)@) + upload_calls(
            api,
            names,
            on_failure,
            vertices@,
            indices@,
        ),
{
    create_vertex_array(commands, api, names.vao, on_failure);
    create_buffer(commands, BufferTarget::Array, names.vertex_buffer, vertex_bytes(vertices));
    create_buffer(commands, BufferTarget::ElementArray, names.index_buffer, index_bytes(indices));
    assert(calls(commands@) =~= calls(old(commands)@) + upload_calls(
        api,
        names,
        on_failure,
        vertices@,
        indices@,
    ));
}

/// The calls that hand over triangles and describe them to their program.
pub open spec fn draw_calls(
    draw: TessDraw,
    api: VertexArrayApi,
    names: DrawNames,
    program: ShaderProgram,
) -> Seq<GlCall> {
    upload_calls(api, names, OnFailure::Panic, draw.vertices@, draw.indices@) + ops(
        program.enable_attributes_ops(),
    ) + ops(seq![GlOp::BindVertexArray(api, None)]) + ops(program.disable_attributes_ops())
}

/// Binds a vertex array object, or none.
pub fn bind_vertex_array(
    commands: &mut Vec<GlCommand>,
    api: VertexArrayApi,
    vao: Option<GlName>,
)
    ensures
        calls(final(commands)@) == calls(old(commands)@).push(
            GlCall::Op(GlOp::BindVertexArray(api, vao)),
        ),
{
    emit_op(commands, GlOp::BindVertexArray(api, vao));
}

/// The corners of the unit square.
pub open spec fn quad_vertex_seq() -> Seq<Vertex> {
    let zero = FloatBits::zero();
    let one = FloatBits::one();
    seq![
        Vertex { x: zero, y: zero, color: 0xffff_ffff },
        Vertex { x: one, y: zero, color: 0xffff_ffff },
        Vertex { x: one, y: one, color: 0xffff_ffff },
        Vertex { x: zero, y: one, color: 0xffff_ffff },
    ]
}

/// The corners of the two triangles that the unit square is made of.
pub open spec fn quad_index_seq() -> Seq<u32> {
    seq![0, 1, 2, 0, 2, 3]
}

/// What is kept of the unit square.
pub open spec fn quad_draw(names: DrawNames) -> DrawView {
    DrawView {
        draw_type: DrawTypeView::Bitmap(
            BitmapDraw {
                matrix: Matrix3::spec_identity(),
                id: 0,
                is_smoothed: true,
                is_repeating: false,
            },
        ),
        vertex_buffer: names.vertex_buffer,
        index_buffer: names.index_buffer,
        vao: names.vao,
        num_indices: 6,
    }
}

/// The calls that hand over the unit square.
pub open spec fn quad_calls(
    api: VertexArrayApi,
    names: DrawNames,
    bitmap_program: ShaderProgram,
) -> Seq<GlCall> {
    upload_calls(
        api,
        names,
        OnFailure::Error(Uncreated::VertexArray),
        quad_vertex_seq(),
        quad_index_seq(),
    ) + ops(bitmap_program.enable_attributes_ops()) + ops(bitmap_program.disable_attributes_ops())
}

/// Hands over the unit square, which bitmaps, rectangles and the finished frame
/// are drawn with.
pub fn build_quad_mesh(
    commands: &mut Vec<GlCommand>,
    api: VertexArrayApi,
    names: DrawNames,
    bitmap_program: &ShaderProgram,
) -> (mesh: Mesh)
    ensures
        calls(final(commands)@) == calls(old(commands)@) + quad_calls(api, names, *bitmap_program),
        mesh@ == seq![quad_draw(names)],
{
    let zero = FloatBits::zero();
    let one = FloatBits::one();
    let vertices: Vec<Vertex> = vec![
        Vertex { x: zero, y: zero, color: 0xffff_ffff },
        Vertex { x: one, y: zero, color: 0xffff_ffff },
        Vertex { x: one, y: one, color: 0xffff_ffff },
        Vertex { x: zero, y: one, color: 0xffff_ffff },
    ];
    let indices: Vec<u32> = vec![0, 1, 2, 0, 2, 3];
    upload(
        commands,
        api,
        names,
        OnFailure::Error(Uncreated::VertexArray),
        &vertices,
        &indices,
    );
    bitmap_program.enable_attributes(commands);
    bitmap_program.disable_attributes(commands);
    assert(calls(commands@) =~= calls(old(commands)@) + quad_calls(api, names, *bitmap_program));
    let draw = Draw {
        draw_type: DrawType::Bitmap(
            BitmapDraw {
                matrix: Matrix3::identity(),
                id: 0,
                is_smoothed: true,
                is_repeating: false,
            },
        ),
        vertex_buffer: names.vertex_buffer,
        index_buffer: names.index_buffer,
        vao: names.vao,
        num_indices: 6,
    };
    let mesh = Mesh { draws: vec![draw] };
    assert(mesh@ =~= seq![quad_draw(names)]);
    mesh
}

/// The number that four bytes hold, the lowest first.
pub open spec fn number_at(bytes: Seq<u8>, at: int) -> int {
    bytes[at] + 0x100 * bytes[at + 1] + 0x1_0000 * bytes[at + 2] + 0x100_0000 * bytes[at + 3]
}

/// A vertex reads back from the twelve bytes at its place: the bits of its
/// position, and its color.
pub proof fn law_vertex_reads_back(vertices: Seq<Vertex>, i: int)
    requires
        0 <= i < vertices.len(),
    ensures
        vertex_data(vertices).len() == 12 * vertices.len(),
        number_at(vertex_data(vertices), 12 * i) == vertices[i].x.bits,
        number_at(vertex_data(vertices), 12 * i + 4) == vertices[i].y.bits,
        number_at(vertex_data(vertices), 12 * i + 8) == vertices[i].color,
{
    let data = vertex_data(vertices);
    let vertex = vertices[i];
    law_vertex_layout(vertices, i);
    let position = data.subrange(12 * i, 12 * i + 8);
    let color = data.subrange(12 * i + 8, 12 * i + 12);
    let x = u32_bytes(vertex.x.bits);
    let y = u32_bytes(vertex.y.bits);
    assert forall|k: int| 0 <= k < 4 implies {
        &&& data[12 * i + k] == #[trigger] x[k]
        &&& data[12 * i + 4 + k] == y[k]
        &&& data[12 * i + 8 + k] == u32_bytes(vertex.color)[k]
    } by {
        assert(position[k] == x[k]);
        assert(position[4 + k] == y[k]);
        assert(color[k] == u32_bytes(vertex.color)[k]);
    }
    assert(x[0] == data[12 * i] && x[1] == data[12 * i + 1]);
    assert(x[2] == data[12 * i + 2] && x[3] == data[12 * i + 3]);
    lemma_bytes_read_back(vertex.x.bits);
    lemma_bytes_read_back(vertex.y.bits);
    lemma_bytes_read_back(vertex.color);
}

proof fn lemma_bytes_read_back(n: u32)
    ensures
        number_at(u32_bytes(n), 0) == n,
{
    let a = n as int / 0x100;
    let b = a / 0x100;
    assert(n as int == 0x100 * a + n as int % 0x100);
    assert(a == 0x100 * b + a % 0x100);
    assert(n as int / 0x1_0000 == b);
    assert(n as int / 0x100_0000 == b / 0x100);
    assert(b == 0x100 * (b / 0x100) + b % 0x100);
}

/// A gradient can be drawn exactly if it has a color, and as many ratios and
/// colors as the shader takes of them: all, but at most fifteen. Colors in the
/// linear color space are only needed to interpolate there.
pub proof fn law_complete_gradients(gradient: TessGradient, draw: TessDraw)
    ensures
        gradient.wf() <==> {
            let needed = if gradient.num_colors < 15 {
                gradient.num_colors as int
            } else {
                15
            };
            &&& gradient.num_colors > 0
            &&& gradient.ratios@.len() >= needed
            &&& gradient.colors@.len() >= needed
            &&& gradient.interpolation == GradientInterpolation::Rgb
                || gradient.linear_colors@.len() >= needed
        },
        draw.wf() <==> match draw.draw_type {
            TessDrawType::Color => true,
            TessDrawType::Gradient(gradient) => gradient.wf(),
            TessDrawType::Bitmap(_) => true,
        },
{
}

/// What the contracts call a mesh, a group of triangles or a gradient has the
/// fields of it, in order.
pub proof fn law_views_have_the_fields(mesh: Mesh, meshes: Seq<Mesh>, gradient: Gradient, i: int)
    ensures
        mesh_views(meshes).len() == meshes.len(),
        0 <= i < meshes.len() ==> mesh_views(meshes)[i] == meshes[i]@,
        mesh@.len() == mesh.draws@.len(),
        0 <= i < mesh.draws@.len() ==> {
            let draw = mesh.draws@[i];
            &&& mesh@[i].vao == draw.vao
            &&& mesh@[i].vertex_buffer == draw.vertex_buffer
            &&& mesh@[i].index_buffer == draw.index_buffer
            &&& mesh@[i].num_indices == draw.num_indices
            &&& match draw.draw_type {
                DrawType::Color => mesh@[i].draw_type is Color,
                DrawType::Gradient(gradient) => mesh@[i].draw_type == DrawTypeView::Gradient(
                    gradient@,
                ),
                DrawType::Bitmap(bitmap) => mesh@[i].draw_type == DrawTypeView::Bitmap(bitmap),
            }
        },
        gradient@.matrix == gradient.matrix,
        gradient@.gradient_type == gradient.gradient_type,
        gradient@.ratios == gradient.ratios@,
        gradient@.colors == gradient.colors@,
        gradient@.num_colors == gradient.num_colors,
        gradient@.repeat_mode == gradient.repeat_mode,
        gradient@.focal_point == gradient.focal_point,
        gradient@.interpolation == gradient.interpolation,
{
}

} // verus!
