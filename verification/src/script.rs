//! The painter operations of one paint call, in the order they are to be carried out.

use vstd::prelude::*;

verus! {

/// One operation for the painter to carry out.
pub enum PainterOp {
    /// Create or update a texture.
    SetTexture(egui::TextureId, egui::epaint::ImageDelta),
    /// Draw the primitives of the frame.
    PaintPrimitives(Vec<egui::ClippedPrimitive>),
    /// Release a texture.
    FreeTexture(egui::TextureId),
}

/// A painter operation as a plain value.
pub enum PainterStep {
    /// Create or update the texture with the image.
    SetTexture(egui::TextureId, egui::epaint::ImageDelta),
    /// Draw these primitives.
    PaintPrimitives(Seq<egui::ClippedPrimitive>),
    /// Release the texture.
    FreeTexture(egui::TextureId),
}

impl View for PainterOp {
    type V = PainterStep;

    open spec fn view(&self) -> PainterStep {
        match *self {
            PainterOp::SetTexture(id, delta) => PainterStep::SetTexture(id, delta),
            PainterOp::PaintPrimitives(primitives) => PainterStep::PaintPrimitives(primitives@),
            PainterOp::FreeTexture(id) => PainterStep::FreeTexture(id),
        }
    }
}

/// The steps that a sequence of operations stands for.
pub open spec fn script_view(ops: Seq<PainterOp>) -> Seq<PainterStep> {
    Seq::new(ops.len(), |i: int| ops[i]@)
}

/// The script of one paint call: every entry of `set` in order, then the one
/// draw of `primitives`, then every entry of `free` in order.
pub open spec fn paint_script(
    set: Seq<(egui::TextureId, egui::epaint::ImageDelta)>,
    primitives: Seq<egui::ClippedPrimitive>,
    free: Seq<egui::TextureId>,
) -> Seq<PainterStep> {
    Seq::new(
        set.len() + 1 + free.len(),
        |i: int|
            if i < set.len() {
                PainterStep::SetTexture(set[i].0, set[i].1)
            } else if i == set.len() {
                PainterStep::PaintPrimitives(primitives)
            } else {
                PainterStep::FreeTexture(free[i - set.len() - 1])
            },
    )
}

/// Lays out the operations of one paint call: the uploads, the draw, the releases.
pub fn paint_ops(
    set: Vec<(egui::TextureId, egui::epaint::ImageDelta)>,
    primitives: Vec<egui::ClippedPrimitive>,
    free: Vec<egui::TextureId>,
) -> (ops: Vec<PainterOp>)
    ensures
        script_view(ops@) == paint_script(set@, primitives@, free@),
{
    let ghost set_seq = set@;
    let ghost free_seq = free@;
    let ghost script = paint_script(set@, primitives@, free@);
    let mut ops: Vec<PainterOp> = Vec::new();
    for entry in it: set
        invariant
            it.seq() == set_seq,
            ops@.len() == it.index(),
            forall|j: int| 0 <= j < ops@.len() ==> (#[trigger] ops@[j])@ == script[j],
            script == paint_script(set_seq, primitives@, free_seq),
    {
        let (id, delta) = entry;
        ops.push(PainterOp::SetTexture(id, delta));
    }
    ops.push(PainterOp::PaintPrimitives(primitives));
    for id in it: free
        invariant
            it.seq() == free_seq,
            ops@.len() == set_seq.len() + 1 + it.index(),
            forall|j: int| 0 <= j < ops@.len() ==> (#[trigger] ops@[j])@ == script[j],
            script.len() == set_seq.len() + 1 + free_seq.len(),
            forall|j: int| set_seq.len() < j < script.len() ==> script[j] == PainterStep::FreeTexture(
                free_seq[j - set_seq.len() - 1],
            ),
    {
        ops.push(PainterOp::FreeTexture(id));
    }
    assert(script_view(ops@) =~= script);
    ops
}

/// In the script of a paint call every upload stands before the draw and
/// every release after it: the first `set.len()` steps are the uploads, in
/// order, the step after them is the one draw, and the rest are the releases,
/// in order.
pub proof fn lemma_uploads_draw_releases(
    set: Seq<(egui::TextureId, egui::epaint::ImageDelta)>,
    primitives: Seq<egui::ClippedPrimitive>,
    free: Seq<egui::TextureId>,
)
    ensures
        paint_script(set, primitives, free).len() == set.len() + 1 + free.len(),
        forall|i: int| 0 <= i < set.len() ==> #[trigger] paint_script(set, primitives, free)[i]
            == PainterStep::SetTexture(set[i].0, set[i].1),
        paint_script(set, primitives, free)[set.len() as int] == PainterStep::PaintPrimitives(primitives),
        forall|i: int| 0 <= i < free.len() ==> #[trigger] paint_script(set, primitives, free)[set.len() + 1 + i]
            == PainterStep::FreeTexture(free[i]),
        forall|i: int| 0 <= i < paint_script(set, primitives, free).len() ==> {
            let step = #[trigger] paint_script(set, primitives, free)[i];
            &&& step is SetTexture <==> i < set.len()
            &&& step is PaintPrimitives <==> i == set.len()
            &&& step is FreeTexture <==> i > set.len()
        },
{
}

/// With nothing to upload, nothing to draw and nothing to release, the script
/// is the one draw of an empty list of primitives.
pub proof fn lemma_empty_frame_script()
    ensures
        paint_script(Seq::empty(), Seq::empty(), Seq::empty()) == seq![
            PainterStep::PaintPrimitives(Seq::empty()),
        ],
{
    assert(paint_script(Seq::empty(), Seq::empty(), Seq::empty()) =~= seq![
        PainterStep::PaintPrimitives(Seq::empty()),
    ]);
}

} // verus!
