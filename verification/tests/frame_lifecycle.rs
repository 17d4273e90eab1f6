use egui::epaint::{ClippedShape, ImageDelta, Mesh, Primitive, Shape};
use egui::{
    ClippedPrimitive, Color32, ColorImage, Context, LayerId, RawInput, Rect, TextureId,
    TextureOptions, TexturesDelta,
};
use egui_glow::{paint_ops, EguiGlow, PainterOp, PendingFrame};

fn image(side: usize, color: Color32) -> ImageDelta {
    ImageDelta::full(ColorImage::new([side, side], color), TextureOptions::default())
}

fn patch(side: usize, color: Color32) -> ImageDelta {
    ImageDelta::partial([0, 0], ColorImage::new([side, side], color), TextureOptions::default())
}

fn mesh_shape(id: TextureId, size: f32) -> ClippedShape {
    let mut mesh = Mesh::with_texture(id);
    mesh.add_colored_rect(
        Rect::from_min_max(egui::pos2(0.0, 0.0), egui::pos2(size, size)),
        Color32::WHITE,
    );
    ClippedShape { clip_rect: Rect::EVERYTHING, shape: Shape::mesh(mesh) }
}

fn delta(set: Vec<(TextureId, ImageDelta)>, free: Vec<TextureId>) -> TexturesDelta {
    TexturesDelta { set, free }
}

fn ready_context() -> Context {
    let ctx = Context::default();
    let _ = ctx.run(RawInput::default(), |_| {});
    ctx
}

fn no_tessellation(_: Vec<ClippedShape>) -> Vec<ClippedPrimitive> {
    panic!("nothing to tessellate")
}

fn texture_of(primitive: &ClippedPrimitive) -> Option<TextureId> {
    match &primitive.primitive {
        Primitive::Mesh(mesh) => Some(mesh.texture_id),
        Primitive::Callback(_) => None,
    }
}

fn draw_index(ops: &[PainterOp]) -> usize {
    let mut found: Vec<usize> = Vec::new();
    for (i, op) in ops.iter().enumerate() {
        if let PainterOp::PaintPrimitives(_) = op {
            found.push(i);
        }
    }
    assert_eq!(found.len(), 1);
    found[0]
}

#[test]
fn new_pending_frame_is_empty() {
    let mut pending = PendingFrame::new();
    let (shapes, set, free) = pending.take();
    assert!(shapes.is_empty());
    assert!(set.is_empty());
    assert!(free.is_empty());
}

#[test]
fn store_merges_textures_and_replaces_shapes() {
    let mut pending = PendingFrame::new();
    let a = TextureId::Managed(1);
    let b = TextureId::Managed(2);
    let c = TextureId::User(9);
    pending.store(
        delta(vec![(a, image(1, Color32::RED))], vec![c]),
        vec![mesh_shape(a, 1.0), mesh_shape(a, 2.0)],
    );
    pending.store(
        delta(vec![(b, image(2, Color32::GREEN)), (a, image(3, Color32::BLUE))], vec![]),
        vec![mesh_shape(b, 3.0)],
    );
    pending.store(delta(vec![], vec![b, a]), vec![mesh_shape(c, 4.0)]);

    let (shapes, set, free) = pending.take();
    assert!(shapes == vec![mesh_shape(c, 4.0)]);
    assert!(set == vec![(b, image(2, Color32::GREEN)), (a, image(3, Color32::BLUE))]);
    assert_eq!(free, vec![c, b, a]);
}

#[test]
fn store_of_an_empty_frame_discards_earlier_shapes() {
    let mut pending = PendingFrame::new();
    let a = TextureId::Managed(4);
    pending.store(delta(vec![(a, image(1, Color32::RED))], vec![]), vec![mesh_shape(a, 1.0)]);
    pending.store(delta(vec![], vec![]), vec![]);
    let (shapes, set, free) = pending.take();
    assert!(shapes.is_empty());
    assert!(set == vec![(a, image(1, Color32::RED))]);
    assert!(free.is_empty());
}

#[test]
fn take_leaves_nothing_behind() {
    let mut pending = PendingFrame::new();
    let a = TextureId::Managed(5);
    pending.store(delta(vec![(a, image(1, Color32::RED))], vec![a]), vec![mesh_shape(a, 1.0)]);
    let (shapes, set, free) = pending.take();
    assert_eq!(shapes.len(), 1);
    assert_eq!(set.len(), 1);
    assert_eq!(free, vec![a]);
    let (shapes, set, free) = pending.take();
    assert!(shapes.is_empty());
    assert!(set.is_empty());
    assert!(free.is_empty());
}

#[test]
fn later_whole_image_supersedes_the_earlier_one() {
    let five = TextureId::Managed(5);
    let mut glow = EguiGlow::new();
    glow.run(delta(vec![(five, image(1, Color32::RED))], vec![]), vec![]);
    glow.run(delta(vec![(five, image(2, Color32::BLUE))], vec![]), vec![]);
    let ops = glow.paint(no_tessellation);
    assert_eq!(ops.len(), 2);
    assert!(matches!(&ops[0], PainterOp::SetTexture(id, d) if *id == five && *d == image(2, Color32::BLUE)));
    assert!(matches!(&ops[1], PainterOp::PaintPrimitives(p) if p.is_empty()));
}

#[test]
fn whole_image_supersedes_within_one_frame_too() {
    let a = TextureId::User(1);
    let b = TextureId::User(2);
    let mut pending = PendingFrame::new();
    pending.store(
        delta(
            vec![
                (a, image(1, Color32::RED)),
                (b, image(1, Color32::GREEN)),
                (a, patch(1, Color32::BLACK)),
                (a, image(2, Color32::BLUE)),
            ],
            vec![],
        ),
        vec![],
    );
    let (_, set, _) = pending.take();
    assert!(set == vec![(b, image(1, Color32::GREEN)), (a, image(2, Color32::BLUE))]);
}

#[test]
fn patch_of_a_region_keeps_the_earlier_entries() {
    let a = TextureId::Managed(0);
    let mut pending = PendingFrame::new();
    pending.store(delta(vec![(a, image(4, Color32::WHITE))], vec![]), vec![]);
    pending.store(delta(vec![(a, patch(1, Color32::RED))], vec![]), vec![]);
    pending.store(delta(vec![(a, patch(2, Color32::BLUE))], vec![]), vec![]);
    let (_, set, _) = pending.take();
    assert!(
        set == vec![
            (a, image(4, Color32::WHITE)),
            (a, patch(1, Color32::RED)),
            (a, patch(2, Color32::BLUE)),
        ]
    );
}

#[test]
fn textures_of_different_kind_or_number_do_not_supersede_each_other() {
    let managed = TextureId::Managed(3);
    let user = TextureId::User(3);
    let other = TextureId::Managed(4);
    let mut pending = PendingFrame::new();
    pending.store(
        delta(vec![(managed, image(1, Color32::RED)), (other, image(1, Color32::GREEN))], vec![]),
        vec![],
    );
    pending.store(delta(vec![(user, image(1, Color32::BLUE))], vec![]), vec![]);
    let (_, set, _) = pending.take();
    assert!(
        set == vec![
            (managed, image(1, Color32::RED)),
            (other, image(1, Color32::GREEN)),
            (user, image(1, Color32::BLUE)),
        ]
    );
}

#[test]
fn paint_ops_of_nothing_is_one_empty_draw() {
    let ops = paint_ops(vec![], vec![], vec![]);
    assert_eq!(ops.len(), 1);
    match &ops[0] {
        PainterOp::PaintPrimitives(primitives) => assert!(primitives.is_empty()),
        _ => panic!("the one step must be the draw"),
    }
}

#[test]
fn paint_ops_puts_uploads_first_and_releases_last() {
    let a = TextureId::Managed(1);
    let b = TextureId::User(2);
    let c = TextureId::Managed(3);
    let ctx = ready_context();
    let primitives = ctx.tessellate(vec![mesh_shape(a, 5.0)], ctx.pixels_per_point());
    assert_eq!(primitives.len(), 1);
    let ops = paint_ops(
        vec![(a, image(1, Color32::RED)), (b, image(2, Color32::GREEN))],
        primitives,
        vec![c, a, b],
    );
    assert_eq!(ops.len(), 6);
    assert!(matches!(&ops[0], PainterOp::SetTexture(id, d) if *id == a && *d == image(1, Color32::RED)));
    assert!(matches!(&ops[1], PainterOp::SetTexture(id, d) if *id == b && *d == image(2, Color32::GREEN)));
    match &ops[2] {
        PainterOp::PaintPrimitives(drawn) => {
            assert_eq!(drawn.len(), 1);
            assert_eq!(texture_of(&drawn[0]), Some(a));
        }
        _ => panic!("the third step must be the draw"),
    }
    assert!(matches!(&ops[3], PainterOp::FreeTexture(id) if *id == c));
    assert!(matches!(&ops[4], PainterOp::FreeTexture(id) if *id == a));
    assert!(matches!(&ops[5], PainterOp::FreeTexture(id) if *id == b));
}

#[test]
fn one_texture_and_one_shape_are_uploaded_then_drawn() {
    let seven = TextureId::Managed(7);
    let ctx = ready_context();
    let mut glow = EguiGlow::new();
    glow.run(delta(vec![(seven, image(2, Color32::WHITE))], vec![]), vec![mesh_shape(seven, 8.0)]);
    let mut handed: Vec<ClippedShape> = Vec::new();
    let ops = glow.paint(|shapes| {
        handed = shapes.clone();
        ctx.tessellate(shapes, ctx.pixels_per_point())
    });

    assert!(handed == vec![mesh_shape(seven, 8.0)]);
    assert_eq!(ops.len(), 2);
    assert!(matches!(&ops[0], PainterOp::SetTexture(id, d) if *id == seven && *d == image(2, Color32::WHITE)));
    match &ops[1] {
        PainterOp::PaintPrimitives(drawn) => {
            assert_eq!(drawn.len(), 1);
            assert_eq!(texture_of(&drawn[0]), Some(seven));
        }
        _ => panic!("the second step must be the draw"),
    }
    assert!(!ops.iter().any(|op| matches!(op, PainterOp::FreeTexture(_))));
}

#[test]
fn free_then_set_of_one_texture_keeps_call_order() {
    let three = TextureId::Managed(3);
    let mut glow = EguiGlow::new();
    glow.run(delta(vec![], vec![three]), vec![]);
    glow.run(delta(vec![(three, image(1, Color32::RED))], vec![]), vec![]);
    let ops = glow.paint(no_tessellation);

    assert_eq!(ops.len(), 2);
    assert!(matches!(&ops[0], PainterOp::SetTexture(id, d) if *id == three && *d == image(1, Color32::RED)));
    assert!(matches!(&ops[1], PainterOp::PaintPrimitives(p) if p.is_empty()));
}

#[test]
fn set_then_free_of_one_texture_uploads_and_releases() {
    let three = TextureId::Managed(3);
    let mut glow = EguiGlow::new();
    glow.run(delta(vec![(three, image(1, Color32::RED))], vec![]), vec![]);
    glow.run(delta(vec![], vec![three]), vec![]);
    let ops = glow.paint(no_tessellation);

    assert_eq!(ops.len(), 3);
    assert!(matches!(&ops[0], PainterOp::SetTexture(id, d) if *id == three && *d == image(1, Color32::RED)));
    assert!(matches!(&ops[1], PainterOp::PaintPrimitives(p) if p.is_empty()));
    assert!(matches!(&ops[2], PainterOp::FreeTexture(id) if *id == three));
}

#[test]
fn set_and_free_within_one_frame_both_stay() {
    let three = TextureId::User(3);
    let mut pending = PendingFrame::new();
    pending.store(delta(vec![(three, image(1, Color32::RED))], vec![three]), vec![]);
    let (_, set, free) = pending.take();
    assert!(set == vec![(three, image(1, Color32::RED))]);
    assert_eq!(free, vec![three]);
}

#[test]
fn whole_upload_revokes_only_the_releases_of_its_texture() {
    let a = TextureId::Managed(1);
    let b = TextureId::Managed(2);
    let c = TextureId::User(1);
    let d = TextureId::User(4);
    let mut pending = PendingFrame::new();
    pending.store(delta(vec![], vec![a, b]), vec![]);
    pending.store(delta(vec![], vec![c, a]), vec![]);
    pending.store(delta(vec![(a, image(1, Color32::RED))], vec![d]), vec![]);
    let (_, set, free) = pending.take();
    assert!(set == vec![(a, image(1, Color32::RED))]);
    assert_eq!(free, vec![b, c, d]);
}

#[test]
fn patch_does_not_revoke_a_release() {
    let a = TextureId::Managed(6);
    let mut pending = PendingFrame::new();
    pending.store(delta(vec![], vec![a]), vec![]);
    pending.store(delta(vec![(a, patch(1, Color32::RED))], vec![]), vec![]);
    let (_, set, free) = pending.take();
    assert!(set == vec![(a, patch(1, Color32::RED))]);
    assert_eq!(free, vec![a]);
}

#[test]
fn paint_without_run_draws_an_empty_frame() {
    let mut glow = EguiGlow::new();
    let ops = glow.paint(no_tessellation);
    assert_eq!(ops.len(), 1);
    assert!(matches!(&ops[0], PainterOp::PaintPrimitives(p) if p.is_empty()));
}

#[test]
fn second_paint_has_nothing_left_to_do() {
    let a = TextureId::Managed(8);
    let ctx = ready_context();
    let mut glow = EguiGlow::new();
    glow.run(delta(vec![(a, image(1, Color32::RED))], vec![a]), vec![mesh_shape(a, 2.0)]);
    let first = glow.paint(|shapes| ctx.tessellate(shapes, ctx.pixels_per_point()));
    assert_eq!(first.len(), 3);
    let second = glow.paint(no_tessellation);
    assert_eq!(second.len(), 1);
    assert!(matches!(&second[0], PainterOp::PaintPrimitives(p) if p.is_empty()));
}

#[test]
fn second_run_replaces_the_shapes_of_the_first() {
    let first = TextureId::User(21);
    let second = TextureId::User(22);
    let ctx = ready_context();
    let mut glow = EguiGlow::new();
    glow.run(delta(vec![], vec![]), vec![mesh_shape(first, 4.0)]);
    glow.run(delta(vec![], vec![]), vec![mesh_shape(second, 4.0)]);
    let ops = glow.paint(|shapes| ctx.tessellate(shapes, ctx.pixels_per_point()));
    assert_eq!(ops.len(), 1);
    match &ops[0] {
        PainterOp::PaintPrimitives(drawn) => {
            assert_eq!(drawn.len(), 1);
            assert_eq!(texture_of(&drawn[0]), Some(second));
        }
        _ => panic!("the one step must be the draw"),
    }
}

#[test]
fn frames_of_a_real_context_are_uploaded_drawn_and_released() {
    let ctx = Context::default();
    let mut glow = EguiGlow::new();
    let mut handle = None;
    let out = ctx.run(RawInput::default(), |ctx| {
        let texture = ctx.load_texture(
            "tile",
            ColorImage::new([2, 2], Color32::WHITE),
            TextureOptions::default(),
        );
        ctx.layer_painter(LayerId::background()).add(mesh_shape(texture.id(), 6.0).shape);
        handle = Some(texture);
    });
    let id = handle.as_ref().map(|h| h.id()).unwrap();
    glow.run(out.textures_delta, out.shapes);
    drop(handle);
    let out = ctx.run(RawInput::default(), |ctx| {
        ctx.layer_painter(LayerId::background()).add(mesh_shape(TextureId::User(1), 6.0).shape);
    });
    let scale = out.pixels_per_point;
    glow.run(out.textures_delta, out.shapes);

    let ops = glow.paint(|shapes| ctx.tessellate(shapes, scale));
    let draw = draw_index(&ops);
    assert!(ops[..draw].iter().all(|op| matches!(op, PainterOp::SetTexture(_, _))));
    assert!(ops[..draw].iter().any(|op| matches!(op, PainterOp::SetTexture(set, _) if *set == id)));
    match &ops[draw] {
        PainterOp::PaintPrimitives(drawn) => {
            assert!(drawn.iter().any(|p| texture_of(p) == Some(TextureId::User(1))));
            assert!(!drawn.iter().any(|p| texture_of(p) == Some(id)));
        }
        _ => unreachable!(),
    }
    assert!(ops[draw + 1..].iter().all(|op| matches!(op, PainterOp::FreeTexture(_))));
    assert!(ops[draw + 1..].iter().any(|op| matches!(op, PainterOp::FreeTexture(freed) if *freed == id)));
}
