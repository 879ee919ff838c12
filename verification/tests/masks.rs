//! Masks, on a pixel with a stencil value.
use ruffle::backend::{MaskState, ShapeHandle, WebGlRenderBackend};
use ruffle::context::ContextChoice;
use ruffle::float::FloatBits;
use ruffle::geometry::{ColorTransform, Matrix, Transform};
use ruffle::gl::{Capability, GlCommand, GlName, GlOp, StencilAction, VertexArrayApi};
use ruffle::mesh::{DrawNames, TessDraw, TessDrawType};
use ruffle::shader::{ShaderProgram, NUM_UNIFORMS};

fn backend() -> (WebGlRenderBackend, ShapeHandle) {
    let program = ShaderProgram::new(GlName { id: 1 }, [None; NUM_UNIFORMS], 0, 1);
    let names = DrawNames {
        vao: GlName { id: 2 },
        vertex_buffer: GlName { id: 3 },
        index_buffer: GlName { id: 4 },
    };
    let (mut backend, _) = WebGlRenderBackend::new(
        ContextChoice { api: VertexArrayApi::WebGl2, msaa_sample_count: 1 },
        program,
        program,
        program,
        names,
        FloatBits::one(),
        FloatBits::minus_one(),
    );
    let shape =
        vec![TessDraw { draw_type: TessDrawType::Color, vertices: vec![], indices: vec![0, 1, 2] }];
    let (handle, _) = backend.register_shape(&shape, &vec![names]);
    (backend, handle)
}

fn transform() -> Transform {
    let zero = FloatBits::zero();
    let one = FloatBits::one();
    Transform {
        matrix: Matrix { a: one, b: zero, c: zero, d: one, tx: zero, ty: zero },
        color_transform: ColorTransform {
            r_mult: one,
            g_mult: one,
            b_mult: one,
            a_mult: one,
            r_add: zero,
            g_add: zero,
            b_add: zero,
            a_add: zero,
        },
    }
}

/// What drawing a shape over a pixel does.
struct Pixel {
    stencil: i32,
    test: bool,
    reference: i32,
    on_pass: StencilAction,
    paints: bool,
}

impl Pixel {
    fn new() -> Pixel {
        Pixel { stencil: 0, test: false, reference: 0, on_pass: StencilAction::Keep, paints: true }
    }

    /// Draws; returns whether the pixel was painted, if it is covered.
    fn draw(&mut self, commands: Vec<GlCommand>, covered: bool) -> bool {
        let mut painted = false;
        for command in commands {
            match command {
                GlCommand::Op(GlOp::Enable(Capability::StencilTest)) => self.test = true,
                GlCommand::Op(GlOp::Disable(Capability::StencilTest)) => self.test = false,
                GlCommand::Op(GlOp::StencilFuncEqual { reference, mask }) => {
                    assert_eq!(mask, 0xff);
                    self.reference = reference;
                }
                GlCommand::Op(GlOp::StencilOp(fail, depth_fail, pass)) => {
                    assert_eq!(fail, StencilAction::Keep);
                    assert_eq!(depth_fail, StencilAction::Keep);
                    self.on_pass = pass;
                }
                GlCommand::Op(GlOp::ColorMask(paints)) => self.paints = paints,
                GlCommand::Op(GlOp::DrawElements { .. }) => {
                    if covered && (!self.test || self.stencil == self.reference) {
                        painted = self.paints;
                        if self.test {
                            match self.on_pass {
                                StencilAction::Keep => {}
                                StencilAction::Incr => self.stencil += 1,
                                StencilAction::Decr => self.stencil -= 1,
                            }
                        }
                    }
                }
                _ => {}
            }
        }
        painted
    }
}

#[test]
fn masks_go_through_their_states() {
    let (mut backend, _) = backend();
    assert_eq!(backend.mask_state, MaskState::NoMask);
    backend.push_mask();
    assert_eq!((backend.mask_state, backend.num_masks), (MaskState::DrawMaskStencil, 1));
    backend.activate_mask();
    assert_eq!((backend.mask_state, backend.num_masks), (MaskState::DrawMaskedContent, 1));
    backend.push_mask();
    assert_eq!((backend.mask_state, backend.num_masks), (MaskState::DrawMaskStencil, 2));
    backend.activate_mask();
    backend.deactivate_mask();
    assert_eq!((backend.mask_state, backend.num_masks), (MaskState::ClearMaskStencil, 2));
    backend.pop_mask();
    assert_eq!((backend.mask_state, backend.num_masks), (MaskState::DrawMaskedContent, 1));
    backend.deactivate_mask();
    backend.pop_mask();
    assert_eq!((backend.mask_state, backend.num_masks), (MaskState::NoMask, 0));
}

#[test]
fn stencil_state_follows_the_masks() {
    let (mut backend, shape) = backend();
    let stencil = |commands: Vec<GlCommand>| -> Vec<GlOp> {
        let mut ops = Vec::new();
        for command in commands {
            match command {
                GlCommand::Op(op) => ops.push(op),
                other => panic!("{:?}", other),
            }
        }
        ops.truncate(4);
        ops
    };
    let keep = StencilAction::Keep;
    backend.push_mask();
    assert_eq!(
        stencil(backend.render_shape(shape, &transform())),
        vec![
            GlOp::Enable(Capability::StencilTest),
            GlOp::StencilFuncEqual { reference: 0, mask: 0xff },
            GlOp::StencilOp(keep, keep, StencilAction::Incr),
            GlOp::ColorMask(false),
        ]
    );
    backend.activate_mask();
    assert_eq!(
        stencil(backend.render_shape(shape, &transform())),
        vec![
            GlOp::Enable(Capability::StencilTest),
            GlOp::StencilFuncEqual { reference: 1, mask: 0xff },
            GlOp::StencilOp(keep, keep, keep),
            GlOp::ColorMask(true),
        ]
    );
    backend.deactivate_mask();
    assert_eq!(
        stencil(backend.render_shape(shape, &transform())),
        vec![
            GlOp::Enable(Capability::StencilTest),
            GlOp::StencilFuncEqual { reference: 1, mask: 0xff },
            GlOp::StencilOp(keep, keep, StencilAction::Decr),
            GlOp::ColorMask(false),
        ]
    );
}

#[test]
fn content_is_painted_where_all_masks_are() {
    for outer in [false, true] {
        for inner in [false, true] {
            let (mut backend, shape) = backend();
            let mut pixel = Pixel::new();
            assert!(pixel.draw(backend.render_shape(shape, &transform()), true));

            backend.push_mask();
            assert!(!pixel.draw(backend.render_shape(shape, &transform()), outer));
            backend.activate_mask();
            assert_eq!(pixel.draw(backend.render_shape(shape, &transform()), true), outer);

            backend.push_mask();
            // A shape may be drawn over a pixel more than once.
            assert!(!pixel.draw(backend.render_shape(shape, &transform()), inner));
            assert!(!pixel.draw(backend.render_shape(shape, &transform()), inner));
            backend.activate_mask();
            assert_eq!(
                pixel.draw(backend.render_shape(shape, &transform()), true),
                outer && inner
            );
            backend.deactivate_mask();
            assert!(!pixel.draw(backend.render_shape(shape, &transform()), inner));
            backend.pop_mask();

            assert_eq!(pixel.stencil, outer as i32);
            assert_eq!(pixel.draw(backend.render_shape(shape, &transform()), true), outer);
            backend.deactivate_mask();
            assert!(!pixel.draw(backend.render_shape(shape, &transform()), outer));
            backend.pop_mask();
            assert_eq!(pixel.stencil, 0);
            assert!(pixel.draw(backend.render_shape(shape, &transform()), true));
        }
    }
}
