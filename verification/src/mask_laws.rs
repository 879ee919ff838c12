//! What the stencil calls of the renderer do to a pixel, and that masks do what
//! they are for: content is drawn where all masks are, and a mask that is
//! removed leaves nothing behind.
use vstd::prelude::*;

use crate::backend::{MaskState, WebGlRenderBackend};
use crate::gl::{Capability, GlOp, StencilAction};

verus! {

/// What the graphics library does to a pixel that is drawn over.
pub struct StencilModel {
    /// Only pixels with the reference value are drawn.
    pub test: bool,
    pub reference: int,
    /// The bits of a stencil value that are compared with the reference.
    pub compared: u32,
    /// What becomes of the stencil value of a pixel that is not drawn.
    pub on_fail: StencilAction,
    /// What becomes of the stencil value of a pixel that is drawn.
    pub on_pass: StencilAction,
    /// Colors are written.
    pub paints: bool,
}

impl StencilModel {
    /// What a call changes.
    pub open spec fn apply(self, op: GlOp) -> StencilModel {
        match op {
            GlOp::Enable(Capability::StencilTest) => StencilModel { test: true, ..self },
            GlOp::Disable(Capability::StencilTest) => StencilModel { test: false, ..self },
            GlOp::StencilFuncEqual { reference, mask } => StencilModel {
                reference: reference as int,
                compared: mask,
                ..self
            },
            GlOp::StencilOp(on_fail, _, on_pass) => StencilModel { on_fail, on_pass, ..self },
            GlOp::ColorMask(paints) => StencilModel { paints, ..self },
            _ => self,
        }
    }

    /// What calls change, one after the other.
    pub open spec fn run(self, ops: Seq<GlOp>) -> StencilModel
        decreases ops.len(),
    {
        if ops.len() == 0 {
            self
        } else {
            self.run(ops.drop_last()).apply(ops.last())
        }
    }

    /// A pixel with a stencil value, from 0 to 255, is drawn.
    pub open spec fn passes(self, value: int) -> bool {
        !self.test || (value as u32) & self.compared == (self.reference as u32) & self.compared
    }

    /// The stencil value, from 0 to 255, of a pixel that was drawn over.
    pub open spec fn stencil_after(self, value: int) -> int {
        if !self.test {
            value
        } else {
            changed_value(
                value,
                if self.passes(value) {
                    self.on_pass
                } else {
                    self.on_fail
                },
            )
        }
    }

    /// The stencil value of a pixel that was drawn over some number of times.
    pub open spec fn stencil_after_times(self, value: int, times: nat) -> int
        decreases times,
    {
        if times == 0 {
            value
        } else {
            self.stencil_after(self.stencil_after_times(value, (times - 1) as nat))
        }
    }

    /// A pixel with a stencil value is painted when it is drawn over.
    pub open spec fn is_painted(self, value: int) -> bool {
        self.paints && self.passes(value)
    }
}

/// A stencil value, from 0 to 255, after an action.
pub open spec fn changed_value(value: int, action: StencilAction) -> int {
    match action {
        StencilAction::Keep => value,
        StencilAction::Incr => if value < 255 {
            value + 1
        } else {
            value
        },
        StencilAction::Decr => if value > 0 {
            value - 1
        } else {
            value
        },
    }
}

/// Where all 8 bits of stencil values are compared, exactly the pixels with the
/// reference value are drawn.
proof fn lemma_all_bits_compared(model: StencilModel, value: int)
    requires
        model.compared == 0xff,
        0 <= value <= 255,
        0 <= model.reference <= 255,
    ensures
        model.passes(value) == (!model.test || value == model.reference),
{
    let a = value as u32;
    let b = model.reference as u32;
    assert(a <= 255 ==> a & 0xff == a) by (bit_vector);
    assert(b <= 255 ==> b & 0xff == b) by (bit_vector);
}

/// What the graphics library does to pixels once the renderer has set the
/// stencil state, whatever was set before: without masks everything is painted;
/// the shape of a mask counts up, and later down, where all others are, and is not
/// painted; and content is painted where all masks are.
pub proof fn lemma_stencil_model(backend: WebGlRenderBackend, before: StencilModel)
    requires
        backend.wf(),
        backend.num_masks <= i32::MAX,
    ensures
        ({
            let after = before.run(backend.stencil_ops());
            let masks = backend.num_masks as int;
            match backend.mask_state {
                MaskState::NoMask => !after.test && after.paints,
                MaskState::DrawMaskStencil => after == StencilModel {
                    test: true,
                    reference: masks - 1,
                    compared: 0xff,
                    on_fail: StencilAction::Keep,
                    on_pass: StencilAction::Incr,
                    paints: false,
                },
                MaskState::DrawMaskedContent => after == StencilModel {
                    test: true,
                    reference: masks,
                    compared: 0xff,
                    on_fail: StencilAction::Keep,
                    on_pass: StencilAction::Keep,
                    paints: true,
                },
                MaskState::ClearMaskStencil => after == StencilModel {
                    test: true,
                    reference: masks,
                    compared: 0xff,
                    on_fail: StencilAction::Keep,
                    on_pass: StencilAction::Decr,
                    paints: false,
                },
            }
        }),
{
    let ops = backend.stencil_ops();
    reveal_with_fuel(StencilModel::run, 5);
    if backend.mask_state == MaskState::NoMask {
        assert(ops.drop_last() =~= seq![ops[0]]);
        assert(ops.drop_last().drop_last() =~= Seq::<GlOp>::empty());
    } else {
        assert(ops.drop_last() =~= seq![ops[0], ops[1], ops[2]]);
        assert(ops.drop_last().drop_last() =~= seq![ops[0], ops[1]]);
        assert(ops.drop_last().drop_last().drop_last() =~= seq![ops[0]]);
        assert(ops.drop_last().drop_last().drop_last().drop_last() =~= Seq::<GlOp>::empty());
    }
}

/// Pushing, activating, deactivating and popping a mask leaves the renderer as
/// it was.
pub proof fn law_mask_cycle_restores(backend: WebGlRenderBackend)
    requires
        backend.wf(),
        backend.mask_state == MaskState::NoMask || backend.mask_state
            == MaskState::DrawMaskedContent,
        backend.num_masks < u32::MAX,
    ensures
        backend.mask_pushed().mask_activated().mask_deactivated().mask_popped() == backend,
{
}

/// Without masks, every pixel is painted and keeps its stencil value.
pub proof fn law_unmasked_content_is_painted(
    backend: WebGlRenderBackend,
    before: StencilModel,
    value: int,
)
    requires
        backend.wf(),
        backend.mask_state == MaskState::NoMask,
    ensures
        before.run(backend.stencil_ops()).is_painted(value),
        before.run(backend.stencil_ops()).stencil_after(value) == value,
{
    lemma_stencil_model(backend, before);
}

/// While a mask is drawn, or removed, no pixel is painted.
pub proof fn law_masks_are_not_painted(
    backend: WebGlRenderBackend,
    before: StencilModel,
    value: int,
)
    requires
        backend.wf(),
        backend.num_masks <= i32::MAX,
        backend.mask_state == MaskState::DrawMaskStencil || backend.mask_state
            == MaskState::ClearMaskStencil,
    ensures
        !before.run(backend.stencil_ops()).is_painted(value),
{
    lemma_stencil_model(backend, before);
}

/// Masks mask, and leave nothing behind.
///
/// `backend` draws what its masks let through, and no pixel has a stencil value
/// above their number. A pixel is in all of these masks if its stencil value is
/// that number. A further mask is pushed; its shape is drawn `drawn` times over
/// the pixel, or not at all, and later `cleared` times, or not at all, to remove
/// it. Then:
///
/// - content is painted on the pixel exactly if it is in all masks, the new one
///   included, and does not change its stencil value;
/// - in the end the pixel has the stencil value that it had.
pub proof fn law_masking(
    backend: WebGlRenderBackend,
    value: int,
    drawn: nat,
    cleared: nat,
    before_draw: StencilModel,
    before_content: StencilModel,
    before_clear: StencilModel,
)
    requires
        backend.wf(),
        backend.mask_state == MaskState::NoMask || backend.mask_state
            == MaskState::DrawMaskedContent,
        backend.num_masks < 255,
        0 <= value <= backend.num_masks,
        drawn == 0 <==> cleared == 0,
    ensures
        ({
            let draw = before_draw.run(backend.mask_pushed().stencil_ops());
            let content = before_content.run(backend.mask_pushed().mask_activated().stencil_ops());
            let clear = before_clear.run(
                backend.mask_pushed().mask_activated().mask_deactivated().stencil_ops(),
            );
            let masked = draw.stencil_after_times(value, drawn);
            &&& 0 <= masked <= backend.num_masks + 1
            &&& content.is_painted(masked) <==> drawn > 0 && value == backend.num_masks
            &&& content.stencil_after(masked) == masked
            &&& clear.stencil_after_times(masked, cleared) == value
        }),
{
    let pushed = backend.mask_pushed();
    let activated = pushed.mask_activated();
    let deactivated = activated.mask_deactivated();
    lemma_stencil_model(pushed, before_draw);
    lemma_stencil_model(activated, before_content);
    lemma_stencil_model(deactivated, before_clear);
    let masks = backend.num_masks as int;
    let draw = before_draw.run(pushed.stencil_ops());
    let clear = before_clear.run(deactivated.stencil_ops());
    let content = before_content.run(activated.stencil_ops());
    let masked = draw.stencil_after_times(value, drawn);
    if drawn > 0 {
        lemma_drawn_once_or_more(draw, value, drawn);
        assert(masked == if value == masks {
            masks + 1
        } else {
            value
        });
        lemma_cleared_once_or_more(clear, masked, cleared);
    }
    lemma_all_bits_compared(content, masked);
}

proof fn lemma_drawn_once_or_more(draw: StencilModel, value: int, times: nat)
    requires
        draw.test,
        draw.compared == 0xff,
        draw.on_fail == StencilAction::Keep,
        draw.on_pass == StencilAction::Incr,
        0 <= draw.reference < 255,
        0 <= value <= draw.reference,
        times > 0,
    ensures
        draw.stencil_after_times(value, times) == if value == draw.reference {
            draw.reference + 1
        } else {
            value
        },
    decreases times,
{
    lemma_all_bits_compared(draw, value);
    lemma_all_bits_compared(draw, draw.reference + 1);
    if times > 1 {
        lemma_drawn_once_or_more(draw, value, (times - 1) as nat);
    } else {
        assert(draw.stencil_after_times(value, 0) == value);
    }
}

proof fn lemma_cleared_once_or_more(clear: StencilModel, value: int, times: nat)
    requires
        clear.test,
        clear.compared == 0xff,
        clear.on_fail == StencilAction::Keep,
        clear.on_pass == StencilAction::Decr,
        0 < clear.reference <= 255,
        0 <= value <= clear.reference,
        times > 0,
    ensures
        clear.stencil_after_times(value, times) == if value == clear.reference {
            clear.reference - 1
        } else {
            value
        },
    decreases times,
{
    lemma_all_bits_compared(clear, value);
    lemma_all_bits_compared(clear, clear.reference - 1);
    if times > 1 {
        lemma_cleared_once_or_more(clear, value, (times - 1) as nat);
    } else {
        assert(clear.stencil_after_times(value, 0) == value);
    }
}

} // verus!
