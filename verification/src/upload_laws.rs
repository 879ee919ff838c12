//! What the graphics library holds of triangles once they are handed over: their
//! vertices and indices, and how their program reads them.
use vstd::prelude::*;

use crate::backend::{RenderCache, WebGlRenderBackend};
use crate::float::FloatBits;
use crate::gl::{
    AttributeType, BufferTarget, GlName, GlOp, OnFailure, ResourceKind, Uncreated, VertexArrayApi,
};
use crate::mesh::{DrawNames, TessDraw, TessDrawType, Vertex};
use crate::shader::{ProgramKind, ShaderProgram};

verus! {

use crate::backend::Placement;
use crate::gl::{ops, GlCall};
use crate::mesh::{
    draw_calls, index_data, law_index_reads_back, law_vertex_reads_back, number_at, quad_calls,
    quad_draw, quad_index_seq, quad_vertex_seq, upload_calls, vertex_data, DrawView,
};

/// How a program reads an attribute of vertices from a buffer.
pub struct Attribute {
    pub buffer: GlName,
    pub size: int,
    pub data_type: AttributeType,
    pub normalized: bool,
    pub stride: int,
    pub offset: int,
}

/// The buffers of the graphics library and its vertex array objects.
pub struct UploadModel {
    /// The vertex array object that is bound.
    pub vao: Option<GlName>,
    /// The buffer for vertices that is bound.
    pub array: Option<GlName>,
    /// The buffer for indices of each vertex array object.
    pub elements: Map<Option<GlName>, GlName>,
    pub data: Map<GlName, Seq<u8>>,
    /// The attributes of each vertex array object, by location.
    pub attributes: Map<(Option<GlName>, u32), Attribute>,
    /// The attributes that are read.
    pub enabled: Set<(Option<GlName>, u32)>,
}

impl UploadModel {
    /// What a call changes.
    pub open spec fn apply(self, call: GlCall) -> UploadModel {
        match call {
            GlCall::Op(op) => match op {
                GlOp::BindVertexArray(_, vao) => UploadModel { vao, ..self },
                GlOp::BindBuffer(BufferTarget::Array, name) => UploadModel {
                    array: Some(name),
                    ..self
                },
                GlOp::BindBuffer(BufferTarget::ElementArray, name) => UploadModel {
                    elements: self.elements.insert(self.vao, name),
                    ..self
                },
                GlOp::VertexAttribPointer {
                    location,
                    size,
                    data_type,
                    normalized,
                    stride,
                    offset,
                } => match self.array {
                    Some(buffer) => UploadModel {
                        attributes: self.attributes.insert(
                            (self.vao, location),
                            Attribute {
                                buffer,
                                size: size as int,
                                data_type,
                                normalized,
                                stride: stride as int,
                                offset: offset as int,
                            },
                        ),
                        ..self
                    },
                    None => self,
                },
                GlOp::EnableVertexAttribArray(location) => UploadModel {
                    enabled: self.enabled.insert((self.vao, location)),
                    ..self
                },
                GlOp::DisableVertexAttribArray(location) => UploadModel {
                    enabled: self.enabled.remove((self.vao, location)),
                    ..self
                },
                _ => self,
            },
            GlCall::BufferData { target: BufferTarget::Array, bytes } => match self.array {
                Some(buffer) => UploadModel { data: self.data.insert(buffer, bytes), ..self },
                None => self,
            },
            GlCall::BufferData { target: BufferTarget::ElementArray, bytes } => {
                if self.elements.contains_key(self.vao) {
                    UploadModel {
                        data: self.data.insert(self.elements[self.vao], bytes),
                        ..self
                    }
                } else {
                    self
                }
            },
            _ => self,
        }
    }

    /// What calls change, one after the other.
    pub open spec fn run(self, calls: Seq<GlCall>) -> UploadModel
        decreases calls.len(),
    {
        if calls.len() == 0 {
            self
        } else {
            self.run(calls.drop_last()).apply(calls.last())
        }
    }

    /// A vertex array object reads an attribute in a way.
    pub open spec fn reads(self, vao: GlName, location: u32, attribute: Attribute) -> bool {
        &&& self.attributes.contains_key((Some(vao), location))
        &&& self.attributes[(Some(vao), location)] == attribute
    }
}

/// The buffers of triangles hold their vertices, twelve bytes each, and their
/// indices, of which the lower 16 bits count; and their vertex array object takes
/// the indices from there.
pub open spec fn holds_triangles(
    model: UploadModel,
    names: DrawNames,
    vertices: Seq<Vertex>,
    indices: Seq<u32>,
) -> bool {
    let corners = model.data[names.vertex_buffer];
    let order = model.data[names.index_buffer];
    &&& model.data.contains_key(names.vertex_buffer)
    &&& corners.len() == 12 * vertices.len()
    &&& forall|i: int| 0 <= i < vertices.len() ==> #[trigger] holds_vertex(corners, i, vertices[i])
    &&& model.data.contains_key(names.index_buffer)
    &&& order.len() == 2 * indices.len()
    &&& forall|i: int| 0 <= i < indices.len() ==> #[trigger] holds_index(order, i, indices[i])
    &&& model.elements.contains_key(Some(names.vao))
    &&& model.elements[Some(names.vao)] == names.index_buffer
}

/// The bytes hold a vertex at place `i`.
pub open spec fn holds_vertex(bytes: Seq<u8>, i: int, vertex: Vertex) -> bool {
    &&& number_at(bytes, 12 * i) == vertex.x.bits
    &&& number_at(bytes, 12 * i + 4) == vertex.y.bits
    &&& number_at(bytes, 12 * i + 8) == vertex.color
}

/// The bytes hold an index at place `i`.
pub open spec fn holds_index(bytes: Seq<u8>, i: int, index: u32) -> bool {
    bytes[2 * i] + 0x100 * bytes[2 * i + 1] == index % 0x1_0000
}

/// Where a program has the attribute, it reads the position of each vertex as two
/// numbers from where the vertex begins, and its color as four bytes, from 0 to 1,
/// eight bytes further.
pub open spec fn reads_vertices(
    model: UploadModel,
    names: DrawNames,
    program: ShaderProgram,
) -> bool {
    let position = program.vertex_position_location;
    let color = program.vertex_color_location;
    &&& position != 0xffff_ffff ==> model.reads(
        names.vao,
        position,
        Attribute {
            buffer: names.vertex_buffer,
            size: 2,
            data_type: AttributeType::Float,
            normalized: false,
            stride: 12,
            offset: 0,
        },
    )
    &&& color != 0xffff_ffff ==> model.reads(
        names.vao,
        color,
        Attribute {
            buffer: names.vertex_buffer,
            size: 4,
            data_type: AttributeType::UnsignedByte,
            normalized: true,
            stride: 12,
            offset: 8,
        },
    )
}

/// The attributes that a program has are turned on.
pub open spec fn attributes_are_on(
    model: UploadModel,
    names: DrawNames,
    program: ShaderProgram,
) -> bool {
    let position = program.vertex_position_location;
    let color = program.vertex_color_location;
    &&& position != 0xffff_ffff ==> model.enabled.contains((Some(names.vao), position))
    &&& color != 0xffff_ffff ==> model.enabled.contains((Some(names.vao), color))
}

/// A program has its two attributes at different locations, if it has both.
pub open spec fn attributes_differ(program: ShaderProgram) -> bool {
    program.vertex_position_location == program.vertex_color_location
        ==> program.vertex_position_location == 0xffff_ffff
}

proof fn lemma_upload_concat(model: UploadModel, first: Seq<GlCall>, second: Seq<GlCall>)
    ensures
        model.run(first + second) == model.run(first).run(second),
    decreases second.len(),
{
    let both = first + second;
    if second.len() == 0 {
        assert(both =~= first);
    } else {
        assert(both.drop_last() =~= first + second.drop_last());
        assert(both.last() == second.last());
        lemma_upload_concat(model, first, second.drop_last());
    }
}

/// Calls that take a state through others: after each, it is the next.
proof fn lemma_upload_steps(states: Seq<UploadModel>, calls: Seq<GlCall>)
    requires
        states.len() == calls.len() + 1,
        forall|i: int| 0 <= i < calls.len() ==> states[i + 1] == states[i].apply(#[trigger] calls[i]),
    ensures
        states[0].run(calls) == states.last(),
    decreases calls.len(),
{
    if calls.len() > 0 {
        let rest = calls.drop_last();
        let fewer = states.drop_last();
        assert forall|i: int| 0 <= i < rest.len() implies fewer[i + 1] == fewer[i].apply(
            #[trigger] rest[i],
        ) by {
            assert(rest[i] == calls[i]);
        }
        lemma_upload_steps(fewer, rest);
        let last = calls.len() - 1;
        assert(states[last + 1] == states[last].apply(calls[last]));
    }
}

/// What handing triangles over changes.
proof fn lemma_uploaded(
    model: UploadModel,
    api: VertexArrayApi,
    names: DrawNames,
    on_failure: OnFailure,
    vertices: Seq<Vertex>,
    indices: Seq<u32>,
)
    requires
        names.vertex_buffer != names.index_buffer,
    ensures
        ({
            let after = model.run(upload_calls(api, names, on_failure, vertices, indices));
            &&& after == UploadModel {
                vao: Some(names.vao),
                array: Some(names.vertex_buffer),
                elements: model.elements.insert(Some(names.vao), names.index_buffer),
                data: model.data.insert(names.vertex_buffer, vertex_data(vertices)).insert(
                    names.index_buffer,
                    index_data(indices),
                ),
                ..model
            }
            &&& holds_triangles(after, names, vertices, indices)
        }),
{
    let all = upload_calls(api, names, on_failure, vertices, indices);
    assert(all.len() == 8);
    let u1 = model.apply(all[0]);
    let u2 = u1.apply(all[1]);
    let u3 = u2.apply(all[2]);
    let u4 = u3.apply(all[3]);
    let u5 = u4.apply(all[4]);
    let u6 = u5.apply(all[5]);
    let u7 = u6.apply(all[6]);
    let u8 = u7.apply(all[7]);
    lemma_upload_steps(seq![model, u1, u2, u3, u4, u5, u6, u7, u8], all);
    let corners = vertex_data(vertices);
    let order = index_data(indices);
    if vertices.len() > 0 {
        law_vertex_reads_back(vertices, 0);
    }
    assert forall|i: int| 0 <= i < vertices.len() implies #[trigger] holds_vertex(
        corners,
        i,
        vertices[i],
    ) by {
        law_vertex_reads_back(vertices, i);
    }
    if indices.len() > 0 {
        law_index_reads_back(indices, 0);
    }
    assert forall|i: int| 0 <= i < indices.len() implies #[trigger] holds_index(
        order,
        i,
        indices[i],
    ) by {
        law_index_reads_back(indices, i);
    }
    assert(u8.data[names.vertex_buffer] == corners);
    assert(u8.data[names.index_buffer] == order);
}

/// What describing vertices to a program changes.
proof fn lemma_described(model: UploadModel, names: DrawNames, program: ShaderProgram)
    requires
        model.vao == Some(names.vao),
        model.array == Some(names.vertex_buffer),
        attributes_differ(program),
    ensures
        ({
            let after = model.run(ops(program.enable_attributes_ops()));
            &&& after == UploadModel {
                attributes: after.attributes,
                enabled: after.enabled,
                ..model
            }
            &&& reads_vertices(after, names, program)
            &&& attributes_are_on(after, names, program)
            &&& forall|vao: Option<GlName>, location: u32|
                vao != Some(names.vao) ==> {
                    &&& after.attributes.contains_key((vao, location))
                        == model.attributes.contains_key((vao, location))
                    &&& #[trigger] after.attributes[(vao, location)]
                        == model.attributes[(vao, location)]
                }
            &&& forall|vao: Option<GlName>, location: u32|
                vao != Some(names.vao) ==> #[trigger] after.enabled.contains((vao, location))
                    == model.enabled.contains((vao, location))
        }),
{
    let all = ops(program.enable_attributes_ops());
    let has_position = program.vertex_position_location != 0xffff_ffff;
    let has_color = program.vertex_color_location != 0xffff_ffff;
    if has_position && has_color {
        assert(all.len() == 4);
        let d1 = model.apply(all[0]);
        let d2 = d1.apply(all[1]);
        let d3 = d2.apply(all[2]);
        let d4 = d3.apply(all[3]);
        lemma_upload_steps(seq![model, d1, d2, d3, d4], all);
    } else if has_position || has_color {
        assert(all.len() == 2);
        let d1 = model.apply(all[0]);
        lemma_upload_steps(seq![model, d1, d1.apply(all[1])], all);
    } else {
        assert(all =~= Seq::<GlCall>::empty());
    }
}

/// Turning attributes off changes only whether they are read, of the vertex array
/// object that is bound, and only of the first two, where the program has fewer.
proof fn lemma_turned_off(model: UploadModel, program: ShaderProgram)
    ensures
        ({
            let after = model.run(ops(program.disable_attributes_ops()));
            &&& after == UploadModel { enabled: after.enabled, ..model }
            &&& forall|vao: Option<GlName>, location: u32| #[trigger]
                after.enabled.contains((vao, location)) == (model.enabled.contains((vao, location))
                    && !(vao == model.vao && program.num_vertex_attributes <= location < 2))
        }),
{
    let all = ops(program.disable_attributes_ops());
    if program.num_vertex_attributes == 0 {
        let d1 = model.apply(all[0]);
        lemma_upload_steps(seq![model, d1, d1.apply(all[1])], all);
    } else if program.num_vertex_attributes == 1 {
        lemma_upload_steps(seq![model, model.apply(all[0])], all);
    } else {
        assert(all =~= Seq::<GlCall>::empty());
    }
}

/// The program that reads the vertices of triangles.
pub open spec fn program_for(backend: WebGlRenderBackend, draw: TessDraw) -> ShaderProgram {
    match draw.draw_type {
        TessDrawType::Color => backend.color_program,
        TessDrawType::Gradient(_) => backend.gradient_program,
        TessDrawType::Bitmap(_) => backend.bitmap_program,
    }
}

/// Everything is there to draw triangles: what they are, and how their program
/// reads them.
pub open spec fn can_draw(
    model: UploadModel,
    names: DrawNames,
    draw: TessDraw,
    program: ShaderProgram,
) -> bool {
    &&& holds_triangles(model, names, draw.vertices@, draw.indices@)
    &&& reads_vertices(model, names, program)
    &&& attributes_are_on(model, names, program)
}

/// Two groups of triangles have different names throughout.
pub open spec fn are_apart(a: DrawNames, b: DrawNames) -> bool {
    &&& a.vao != b.vao
    &&& a.vertex_buffer != b.vertex_buffer
    &&& a.vertex_buffer != b.index_buffer
    &&& a.index_buffer != b.vertex_buffer
    &&& a.index_buffer != b.index_buffer
}

proof fn lemma_draw_is_uploaded(
    model: UploadModel,
    draw: TessDraw,
    api: VertexArrayApi,
    names: DrawNames,
    program: ShaderProgram,
)
    requires
        names.vertex_buffer != names.index_buffer,
        attributes_differ(program),
    ensures
        ({
            let after = model.run(draw_calls(draw, api, names, program));
            &&& after.vao is None
            &&& can_draw(after, names, draw, program)
            &&& forall|other_names: DrawNames, other: TessDraw, other_program: ShaderProgram|
                are_apart(names, other_names) && can_draw(model, other_names, other, other_program)
                    ==> #[trigger] can_draw(after, other_names, other, other_program)
        }),
{
    let uploads = upload_calls(api, names, OnFailure::Panic, draw.vertices@, draw.indices@);
    let enables = ops(program.enable_attributes_ops());
    let unbinds = ops(seq![GlOp::BindVertexArray(api, None)]);
    let disables = ops(program.disable_attributes_ops());
    lemma_upload_concat(model, uploads + enables + unbinds, disables);
    lemma_upload_concat(model, uploads + enables, unbinds);
    lemma_upload_concat(model, uploads, enables);
    lemma_uploaded(model, api, names, OnFailure::Panic, draw.vertices@, draw.indices@);
    let uploaded = model.run(uploads);
    lemma_described(uploaded, names, program);
    let described = uploaded.run(enables);
    let unbound = described.apply(unbinds[0]);
    lemma_upload_steps(seq![described, unbound], unbinds);
    lemma_turned_off(unbound, program);
    let after = unbound.run(disables);
    assert(after == model.run(draw_calls(draw, api, names, program)));
    assert forall|other_names: DrawNames, other: TessDraw, other_program: ShaderProgram|
        are_apart(names, other_names) && can_draw(
            model,
            other_names,
            other,
            other_program,
        ) implies #[trigger] can_draw(after, other_names, other, other_program) by {
        assert(after.data[other_names.vertex_buffer] == model.data[other_names.vertex_buffer]);
        assert(after.data[other_names.index_buffer] == model.data[other_names.index_buffer]);
        let vao = Some(other_names.vao);
        let position = other_program.vertex_position_location;
        let color = other_program.vertex_color_location;
        assert(after.attributes[(vao, position)] == model.attributes[(vao, position)]);
        assert(after.attributes[(vao, color)] == model.attributes[(vao, color)]);
        assert(after.enabled.contains((vao, position)) == model.enabled.contains((vao, position)));
        assert(after.enabled.contains((vao, color)) == model.enabled.contains((vao, color)));
    }
}

/// The names for the groups of triangles of a shape are different, within each
/// and between them.
pub open spec fn names_are_apart(names: Seq<DrawNames>) -> bool {
    &&& forall|i: int|
        0 <= i < names.len() ==> (#[trigger] names[i]).vertex_buffer != names[i].index_buffer
    &&& forall|i: int, j: int|
        0 <= i < j < names.len() ==> are_apart(#[trigger] names[j], #[trigger] names[i])
}

/// Registering a shape hands over all of its triangles: for each group of them,
/// the graphics library holds its vertices and its indices, and reads them for
/// the program that draws the group. No vertex array object is bound afterwards.
pub proof fn law_shape_is_handed_over(
    backend: WebGlRenderBackend,
    shape: Seq<TessDraw>,
    names: Seq<DrawNames>,
    count: nat,
    model: UploadModel,
)
    requires
        shape.len() == names.len(),
        count <= shape.len(),
        names_are_apart(names),
        attributes_differ(backend.color_program),
        attributes_differ(backend.gradient_program),
        attributes_differ(backend.bitmap_program),
    ensures
        ({
            let after = model.run(backend.shape_calls(shape, names, count));
            &&& count > 0 ==> after.vao is None
            &&& forall|i: int|
                0 <= i < count ==> can_draw(
                    after,
                    names[i],
                    #[trigger] shape[i],
                    program_for(backend, shape[i]),
                )
        }),
    decreases count,
{
    if count > 0 {
        let last = count - 1;
        let before = backend.shape_calls(shape, names, last as nat);
        let program = backend.spec_program(shape[last].program());
        let own = draw_calls(shape[last], backend.api, names[last], program);
        law_shape_is_handed_over(backend, shape, names, last as nat, model);
        assert(names[last].vertex_buffer != names[last].index_buffer);
        assert(program == program_for(backend, shape[last]));
        lemma_draw_is_uploaded(model.run(before), shape[last], backend.api, names[last], program);
        lemma_upload_concat(model, before, own);
        let after = model.run(backend.shape_calls(shape, names, count));
        assert forall|i: int| 0 <= i < count implies can_draw(
            after,
            names[i],
            #[trigger] shape[i],
            program_for(backend, shape[i]),
        ) by {
            if i < last {
                assert(are_apart(names[last], names[i]));
                assert(can_draw(
                    model.run(before),
                    names[i],
                    shape[i],
                    program_for(backend, shape[i]),
                ));
            }
        }
    }
}

/// The unit square is handed over: its corners are `(0, 0)`, `(1, 0)`, `(1, 1)`
/// and `(0, 1)`, all white, and its two triangles share the first and the third.
/// What is kept of it draws all six of its indices, and has the names under which
/// it was handed over. Attributes at locations that the program counts are on.
pub proof fn law_unit_square_is_handed_over(
    api: VertexArrayApi,
    names: DrawNames,
    program: ShaderProgram,
    model: UploadModel,
)
    requires
        names.vertex_buffer != names.index_buffer,
        attributes_differ(program),
    ensures
        ({
            let after = model.run(quad_calls(api, names, program));
            let zero = FloatBits { bits: 0 };
            let one = FloatBits { bits: 0x3f80_0000 };
            let position = program.vertex_position_location;
            let color = program.vertex_color_location;
            let num = program.num_vertex_attributes;
            &&& holds_triangles(
                after,
                names,
                seq![
                    Vertex { x: zero, y: zero, color: 0xffff_ffff },
                    Vertex { x: one, y: zero, color: 0xffff_ffff },
                    Vertex { x: one, y: one, color: 0xffff_ffff },
                    Vertex { x: zero, y: one, color: 0xffff_ffff },
                ],
                seq![0u32, 1, 2, 0, 2, 3],
            )
            &&& reads_vertices(after, names, program)
            &&& position != 0xffff_ffff && !(num <= position < 2) ==> after.enabled.contains(
                (Some(names.vao), position),
            )
            &&& color != 0xffff_ffff && !(num <= color < 2) ==> after.enabled.contains(
                (Some(names.vao), color),
            )
            &&& quad_draw(names).num_indices == 6
            &&& quad_draw(names).vao == names.vao
            &&& quad_draw(names).vertex_buffer == names.vertex_buffer
            &&& quad_draw(names).index_buffer == names.index_buffer
            &&& quad_draw(names).draw_type is Bitmap
        }),
{
    let zero = FloatBits { bits: 0 };
    let one = FloatBits { bits: 0x3f80_0000 };
    let vertices = seq![
        Vertex { x: zero, y: zero, color: 0xffff_ffff },
        Vertex { x: one, y: zero, color: 0xffff_ffff },
        Vertex { x: one, y: one, color: 0xffff_ffff },
        Vertex { x: zero, y: one, color: 0xffff_ffff },
    ];
    let indices = seq![0u32, 1, 2, 0, 2, 3];
    assert(quad_vertex_seq() =~= vertices);
    assert(quad_index_seq() =~= indices);
    let on_failure = OnFailure::Error(Uncreated::VertexArray);
    let uploads = upload_calls(api, names, on_failure, vertices, indices);
    let enables = ops(program.enable_attributes_ops());
    let disables = ops(program.disable_attributes_ops());
    lemma_upload_concat(model, uploads + enables, disables);
    lemma_upload_concat(model, uploads, enables);
    lemma_uploaded(model, api, names, on_failure, vertices, indices);
    let uploaded = model.run(uploads);
    lemma_described(uploaded, names, program);
    lemma_turned_off(uploaded.run(enables), program);
}

/// A call that has to do with vertex array objects goes through an interface.
pub open spec fn goes_through(call: GlCall, api: VertexArrayApi) -> bool {
    match call {
        GlCall::Op(GlOp::BindVertexArray(through, _)) => through == api,
        GlCall::Op(GlOp::Create { kind: ResourceKind::VertexArray(through), .. }) => through == api,
        _ => true,
    }
}

/// All calls that have to do with vertex array objects go through an interface.
pub open spec fn all_go_through(calls: Seq<GlCall>, api: VertexArrayApi) -> bool {
    forall|i: int| 0 <= i < calls.len() ==> goes_through(#[trigger] calls[i], api)
}

/// Handing over a shape goes through the interface of the renderer.
pub proof fn law_registering_goes_through(
    backend: WebGlRenderBackend,
    shape: Seq<TessDraw>,
    names: Seq<DrawNames>,
    count: nat,
)
    ensures
        all_go_through(backend.shape_calls(shape, names, count), backend.api),
    decreases count,
{
    if count > 0 {
        let last = count - 1;
        law_registering_goes_through(backend, shape, names, last as nat);
        assert(all_go_through(
            draw_calls(
                shape[last],
                backend.api,
                names[last],
                backend.spec_program(shape[last].program()),
            ),
            backend.api,
        ));
    }
}

/// Handing over the unit square goes through the interface of the context.
pub proof fn law_unit_square_goes_through(
    api: VertexArrayApi,
    names: DrawNames,
    program: ShaderProgram,
)
    ensures
        all_go_through(quad_calls(api, names, program), api),
{
}

proof fn lemma_steps_go_through(
    backend: WebGlRenderBackend,
    cache: RenderCache,
    draws: Seq<DrawView>,
    placement: Placement,
    count: nat,
)
    ensures
        all_go_through(backend.draw_steps(cache, draws, placement, count).0, backend.api),
    decreases count,
{
    if count > 0 {
        let (_, known) = backend.draw_steps(cache, draws, placement, (count - 1) as nat);
        lemma_steps_go_through(backend, cache, draws, placement, (count - 1) as nat);
        let draw = draws[count - 1];
        assert(all_go_through(backend.paint_calls(draw), backend.api));
        assert(all_go_through(backend.draw_step(known, draw, placement).0, backend.api));
    }
}

/// Drawing goes through the interface of the renderer: shapes, rectangles and the
/// finished frame.
pub proof fn law_drawing_goes_through(
    backend: WebGlRenderBackend,
    draws: Seq<DrawView>,
    placement: Placement,
)
    ensures
        all_go_through(backend.render_result(draws, placement).0, backend.api),
        all_go_through(ops(backend.rect_result(placement).0), backend.api),
        all_go_through(ops(backend.end_frame_ops()), backend.api),
{
    lemma_steps_go_through(backend, backend.cache, draws, placement, draws.len());
    lemma_stencil_goes_through(backend);
    lemma_rectangle_goes_through(backend, placement);
    lemma_frame_goes_through(backend);
    let steps = backend.draw_steps(backend.cache, draws, placement, draws.len()).0;
    lemma_through_concat(ops(backend.stencil_ops()), steps, backend.api);
}

proof fn lemma_through_concat(first: Seq<GlCall>, second: Seq<GlCall>, api: VertexArrayApi)
    requires
        all_go_through(first, api),
        all_go_through(second, api),
    ensures
        all_go_through(first + second, api),
{
}

proof fn lemma_stencil_goes_through(backend: WebGlRenderBackend)
    ensures
        all_go_through(ops(backend.stencil_ops()), backend.api),
{
}

proof fn lemma_rectangle_goes_through(backend: WebGlRenderBackend, placement: Placement)
    ensures
        all_go_through(ops(backend.rect_result(placement).0), backend.api),
{
    let common = backend.common_state(backend.cache, ProgramKind::Color, placement).0;
    let quad = backend.meshes@[backend.quad_shape.index as int]@[0];
    let last = seq![
        GlOp::BindVertexArray(backend.api, Some(quad.vao)),
        GlOp::DrawElements { count: quad.num_indices },
    ];
    lemma_stencil_goes_through(backend);
    assert(all_go_through(ops(common), backend.api));
    assert(all_go_through(ops(last), backend.api));
    lemma_through_concat(ops(backend.stencil_ops()), ops(common), backend.api);
    lemma_through_concat(
        ops(backend.stencil_ops()) + ops(common),
        ops(last),
        backend.api,
    );
    assert(ops(backend.rect_result(placement).0) =~= ops(backend.stencil_ops()) + ops(common) + ops(
        last,
    ));
}

proof fn lemma_frame_goes_through(backend: WebGlRenderBackend)
    ensures
        all_go_through(ops(backend.end_frame_ops()), backend.api),
{
}

} // verus!
