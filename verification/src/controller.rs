//! The frame controller: buffers what UI frames produce and turns the buffer
//! into a painter script when asked to paint.

use vstd::prelude::*;
use crate::outside::{delta_free, delta_set};
use crate::pending::{empty_pending, settled, stored, FrameView, PendingFrame};
use crate::script::{
    lemma_empty_frame_script, paint_ops, paint_script, script_view, PainterOp, PainterStep,
};

verus! {

/// The frame that is waiting to be painted.
pub struct EguiGlow {
    pending: PendingFrame,
}

impl EguiGlow {
    /// What is waiting to be painted.
    pub closed spec fn pending(&self) -> FrameView {
        self.pending@
    }

    /// A controller with nothing waiting to be painted.
    pub fn new() -> (glow: EguiGlow)
        ensures
            glow.pending() == empty_pending(),
    {
        EguiGlow { pending: PendingFrame::new() }
    }

    /// Takes in what one UI frame produced: its shapes replace the stored
    /// ones, its texture uploads are merged into those already waiting, a
    /// waiting release is dropped where the frame uploads the whole of its
    /// texture again, and the frame's releases are queued behind the rest.
    pub fn run(&mut self, textures_delta: egui::TexturesDelta, shapes: Vec<egui::epaint::ClippedShape>)
        ensures
            final(self).pending() == stored(
                old(self).pending(),
                (FrameView {
                    set: delta_set(textures_delta),
                    free: delta_free(textures_delta),
                    shapes: shapes@,
                }),
            ),
            settled(old(self).pending().set) ==> settled(final(self).pending().set),
    {
        self.pending.store(textures_delta, shapes);
    }

    /// Takes everything that is waiting and lays out the painter's work for
    /// it: the texture uploads, the draw of what `tessellate` makes of the
    /// shapes, the texture releases. Nothing is left waiting. With no shapes
    /// waiting `tessellate` is not called and the draw is of an empty list of
    /// primitives.
    pub fn paint<F: FnOnce(Vec<egui::epaint::ClippedShape>) -> Vec<egui::ClippedPrimitive>>(
        &mut self,
        tessellate: F,
    ) -> (ops: Vec<PainterOp>)
        requires
            forall|shapes: Vec<egui::epaint::ClippedShape>|
                shapes@ == old(self).pending().shapes && shapes@.len() > 0 ==> call_requires(
                    tessellate,
                    (shapes,),
                ),
        ensures
            final(self).pending() == empty_pending(),
            old(self).pending().shapes.len() > 0 ==> exists|
                shapes: Vec<egui::epaint::ClippedShape>,
                primitives: Vec<egui::ClippedPrimitive>,
            |
                shapes@ == old(self).pending().shapes && #[trigger] call_ensures(
                    tessellate,
                    (shapes,),
                    primitives,
                ) && script_view(ops@) == paint_script(
                    old(self).pending().set,
                    primitives@,
                    old(self).pending().free,
                ),
            old(self).pending().shapes.len() == 0 ==> script_view(ops@) == paint_script(
                old(self).pending().set,
                Seq::empty(),
                old(self).pending().free,
            ),
            old(self).pending() == empty_pending() ==> script_view(ops@) == seq![
                PainterStep::PaintPrimitives(Seq::empty()),
            ],
    {
        let (shapes, set, free) = self.pending.take();
        let ghost taken = shapes;
        let primitives = if shapes.len() == 0 {
            Vec::new()
        } else {
            tessellate(shapes)
        };
        let ghost drawn = primitives;
        let ops = paint_ops(set, primitives, free);
        proof {
            lemma_empty_frame_script();
            if taken@.len() > 0 {
                assert(call_ensures(tessellate, (taken,), drawn));
            }
        }
        ops
    }
}

} // verus!
