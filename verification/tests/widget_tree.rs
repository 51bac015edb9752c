use cgmath::{vec3, Matrix4, Quaternion, SquareMatrix, Vector4};
use cinema_skylight_engine::{
    BackgroundWidget, BorderWidget, ContainerWidget, EngineError, GeometryBuffer, Inset, Mat4,
    PictureWidget, Placement, Quat, Scalar, TextWidget, TextureHandle, TextureWidget, Vec2, Vec4,
    Widget, Widget2dScene, WidgetKind, BLOCK_SIZE,
};

fn sc(v: f32) -> Scalar {
    Scalar { bits: v.to_bits() }
}

fn fl(s: Scalar) -> f32 {
    f32::from_bits(s.bits)
}

fn v4(x: f32, y: f32, z: f32, w: f32) -> Vec4 {
    Vec4 { x: sc(x), y: sc(y), z: sc(z), w: sc(w) }
}

fn col(v: Vec4) -> Vector4<f32> {
    Vector4::new(fl(v.x), fl(v.y), fl(v.z), fl(v.w))
}

fn uncol(v: Vector4<f32>) -> Vec4 {
    v4(v.x, v.y, v.z, v.w)
}

fn to_matrix(m: Mat4) -> Matrix4<f32> {
    Matrix4::from_cols(col(m.x), col(m.y), col(m.z), col(m.w))
}

fn from_matrix(m: Matrix4<f32>) -> Mat4 {
    Mat4 { x: uncol(m.x), y: uncol(m.y), z: uncol(m.z), w: uncol(m.w) }
}

fn local_matrix(p: Placement) -> Matrix4<f32> {
    let mut matrix = Matrix4::from_translation(vec3(fl(p.position.x), fl(p.position.y), 0.0));
    matrix = matrix * Matrix4::from_nonuniform_scale(fl(p.width), fl(p.height), 1.0);
    matrix * Matrix4::from(Quaternion::new(
        fl(p.rotation.s),
        fl(p.rotation.x),
        fl(p.rotation.y),
        fl(p.rotation.z),
    ))
}

fn compose(vec_space: Mat4, p: Placement) -> Mat4 {
    from_matrix(to_matrix(vec_space) * local_matrix(p))
}

fn inset_of(border: Vec4, padding: Vec4) -> Inset {
    let width = 1.0 - fl(border.x) - fl(border.y) - fl(padding.x) - fl(padding.y);
    let height = 1.0 - fl(border.z) - fl(border.w) - fl(padding.z) - fl(padding.w);
    let x = fl(border.x) + fl(padding.x);
    let y = fl(border.z) + fl(padding.z);
    Inset { position: Vec2 { x: sc(x), y: sc(y) }, width: sc(width), height: sc(height) }
}

fn texture() -> TextureHandle {
    TextureHandle { id: 7, handle: 0x0102_0304_0506_0708 }
}

fn picture() -> Widget {
    PictureWidget::new(
        v4(0.05, 0.05, 0.05, 0.05),
        v4(0.1, 0.2, 0.3, 1.0),
        texture(),
        v4(1.0, 1.0, 1.0, 1.0),
        v4(0.01, 0.01, 0.01, 0.01),
        &inset_of,
    )
}

// root(container) -> [a(background) -> [a1(text), a2(texture)], b(border)]
fn sample_tree() -> Widget {
    let mut root = ContainerWidget::new();
    let mut a = BackgroundWidget::new(v4(0.5, 0.25, 0.125, 1.0));
    a.insert_child(0, TextWidget::new());
    a.insert_child(1, TextureWidget::new(texture()));
    root.insert_child(0, a);
    root.insert_child(1, BorderWidget::new(v4(1.0, 0.0, 0.0, 1.0), v4(0.1, 0.2, 0.3, 0.4)));
    root
}

fn preorder_slots(w: &Widget, out: &mut Vec<Option<usize>>) {
    if w.is_primitive() {
        out.push(w.get_index());
    }
    for c in w.get_children() {
        preorder_slots(c, out);
    }
}

fn slots(w: &Widget) -> Vec<Option<usize>> {
    let mut out = Vec::new();
    preorder_slots(w, &mut out);
    out
}

fn tag_of(block: &[u8]) -> u32 {
    u32::from_le_bytes([block[0], block[1], block[2], block[3]])
}

fn close(a: f32, b: f32) -> bool {
    (a - b).abs() < 1e-6
}

#[test]
fn rebuild_gives_dense_slots_in_preorder() {
    let mut root = sample_tree();
    let mut buffer = GeometryBuffer::new();
    root.traverse_and_push_all(Mat4::identity(), &mut buffer, &compose);
    assert_eq!(slots(&root), vec![Some(0), Some(1), Some(2), Some(3), Some(4)]);
    assert_eq!(buffer.len(), 5);
    assert_eq!(buffer.transforms.len(), 5);
    assert_eq!(buffer.infos.len(), 5);
    let tags: Vec<u32> = buffer.infos.iter().map(|b| tag_of(b)).collect();
    assert_eq!(tags, vec![4, 0, 3, 2, 1]);
    assert_eq!(root.get_children()[0].get_children()[1].get_index(), Some(3));
    assert_eq!(root.get_children()[1].get_index(), Some(4));
}

#[test]
fn rebuild_appends_after_what_the_buffer_holds() {
    let mut first = BackgroundWidget::new(v4(0.0, 0.0, 0.0, 1.0));
    let mut second = sample_tree();
    let mut buffer = GeometryBuffer::new();
    first.traverse_and_push_all(Mat4::identity(), &mut buffer, &compose);
    second.traverse_and_push_all(Mat4::identity(), &mut buffer, &compose);
    assert_eq!(first.get_index(), Some(0));
    assert_eq!(slots(&second), vec![Some(1), Some(2), Some(3), Some(4), Some(5)]);
    assert_eq!(buffer.len(), 6);
}

#[test]
fn rebuilding_twice_gives_the_same_slots() {
    let mut scene = Widget2dScene::new(1280, 720, sample_tree());
    scene.traverse_and_push_all(&compose);
    let first = slots(&scene.root);
    let first_transforms = scene.buffer.transforms.clone();
    scene.traverse_and_push_all(&compose);
    assert_eq!(slots(&scene.root), first);
    assert_eq!(scene.buffer.transforms, first_transforms);
    assert_eq!(scene.buffer.len(), 5);
}

#[test]
fn nested_widget_transform_is_translate_then_scale() {
    let mut parent = ContainerWidget::new();
    let mut child = BackgroundWidget::new(v4(0.0, 0.0, 0.0, 1.0));
    child.set_position(Vec2 { x: sc(0.25), y: sc(-0.5) });
    child.set_size(sc(0.5), sc(0.125));
    parent.insert_child(0, child);
    let mut buffer = GeometryBuffer::new();
    parent.traverse_and_push_all(Mat4::identity(), &mut buffer, &compose);
    let expected = Matrix4::from_translation(vec3(0.25f32, -0.5, 0.0))
        * Matrix4::from_nonuniform_scale(0.5f32, 0.125, 1.0);
    assert_eq!(to_matrix(buffer.transforms[1]), expected);
    assert_eq!(to_matrix(buffer.transforms[1]).w, Vector4::new(0.25f32, -0.5, 0.0, 1.0));
    assert_eq!(to_matrix(buffer.transforms[0]), Matrix4::<f32>::identity());
    let kept = &parent.get_children()[0];
    assert_eq!(kept.get_vec_space(), Mat4::identity());
    assert_eq!(kept.transform, buffer.transforms[1]);
}

#[test]
fn children_are_framed_by_their_parents_transform() {
    let mut parent = ContainerWidget::new();
    parent.set_position(Vec2 { x: sc(0.5), y: sc(0.5) });
    parent.set_size(sc(0.5), sc(0.5));
    let mut child = BackgroundWidget::new(v4(0.0, 0.0, 0.0, 1.0));
    child.set_position(Vec2 { x: sc(0.5), y: sc(0.0) });
    parent.insert_child(0, child);
    let mut buffer = GeometryBuffer::new();
    parent.traverse_and_push_all(Mat4::identity(), &mut buffer, &compose);
    assert_eq!(parent.get_children()[0].get_vec_space(), buffer.transforms[0]);
    let m = to_matrix(buffer.transforms[1]);
    assert_eq!(m.w, Vector4::new(0.75f32, 0.5, 0.0, 1.0));
    assert_eq!(m.x.x, 0.5f32);
    assert_eq!(m.y.y, 0.5f32);
}

#[test]
fn padding_and_border_set_the_inner_widget_in() {
    let mut w = picture();
    w.set_border_widths(v4(0.1, 0.2, 0.05, 0.15), &inset_of);
    w.set_padding(v4(0.05, 0.1, 0.2, 0.1), &inset_of);
    let inner = w.get_inner_widget();
    let (width, height) = inner.get_size();
    assert_eq!(fl(width), 1.0f32 - 0.1 - 0.2 - 0.05 - 0.1);
    assert_eq!(fl(height), 1.0f32 - 0.05 - 0.15 - 0.2 - 0.1);
    assert_eq!(fl(inner.get_position().x), 0.1f32 + 0.05);
    assert_eq!(fl(inner.get_position().y), 0.05f32 + 0.2);
    assert_eq!(w.get_padding(), v4(0.05, 0.1, 0.2, 0.1));
    assert_eq!(w.get_border_widths(), v4(0.1, 0.2, 0.05, 0.15));
    assert!(w.is_framed());
}

#[test]
fn refresh_of_a_fresh_tree_fails() {
    let mut root = sample_tree();
    let mut buffer = GeometryBuffer::new();
    assert_eq!(
        root.traverse_and_set_transforms(Mat4::identity(), &mut buffer, &compose),
        Err(EngineError::WidgetIndexMissing)
    );
    assert_eq!(root.traverse_and_send_info(&mut buffer), Err(EngineError::WidgetIndexMissing));
    assert_eq!(buffer.len(), 0);
    assert_eq!(slots(&root), vec![None, None, None, None, None]);
    let leaf = &mut root.children[0].children[1];
    assert_eq!(leaf.traverse_and_send_info(&mut buffer), Err(EngineError::WidgetIndexMissing));
}

#[test]
fn refresh_fails_on_a_slot_beyond_the_buffer() {
    let mut buffer = GeometryBuffer::new();
    let mut known = BackgroundWidget::new(v4(0.0, 0.0, 0.0, 1.0));
    known.traverse_and_push_all(Mat4::identity(), &mut buffer, &compose);
    let mut stale = BackgroundWidget::new(v4(1.0, 0.0, 0.0, 1.0));
    stale.set_index(Some(5));
    let before = buffer.transforms.clone();
    assert_eq!(
        stale.traverse_and_set_transforms(Mat4::identity(), &mut buffer, &compose),
        Err(EngineError::WidgetIndexMissing)
    );
    assert_eq!(stale.traverse_and_send_info(&mut buffer), Err(EngineError::WidgetIndexMissing));
    assert_eq!(buffer.transforms, before);
    assert_eq!(stale.get_index(), Some(5));
}

#[test]
fn inserting_a_child_shifts_the_slots_after_it() {
    let mut scene = Widget2dScene::new(800, 600, sample_tree());
    scene.traverse_and_push_all(&compose);
    assert_eq!(scene.buffer.len(), 5);
    let mut added = ContainerWidget::new();
    added.insert_child(0, TextWidget::new());
    scene.root.children[0].insert_child(1, added);
    scene.traverse_and_push_all(&compose);
    assert_eq!(scene.buffer.len(), 7);
    assert_eq!(scene.buffer.infos.len(), 7);
    let a = &scene.root.get_children()[0];
    assert_eq!(a.get_index(), Some(1));
    assert_eq!(a.get_children()[0].get_index(), Some(2));
    assert_eq!(a.get_children()[1].get_index(), Some(3));
    assert_eq!(a.get_children()[1].get_children()[0].get_index(), Some(4));
    assert_eq!(a.get_children()[2].get_index(), Some(5));
    assert_eq!(scene.root.get_children()[1].get_index(), Some(6));
}

#[test]
fn removing_a_child_gives_it_back() {
    let mut root = sample_tree();
    let taken = root.remove_child(0);
    assert_eq!(taken.get_children().len(), 2);
    assert_eq!(root.get_children().len(), 1);
    assert!(matches!(root.get_children()[0].kind, WidgetKind::Border(_)));
}

#[test]
fn framed_picture_end_to_end() {
    let mut scene = Widget2dScene::new(1280, 720, picture());
    scene.traverse_and_push_all(&compose);
    assert_eq!(scene.buffer.len(), 3);
    assert_eq!(scene.buffer.transforms.len(), 3);
    assert_eq!(scene.buffer.infos.len(), 3);
    let tags: Vec<u32> = scene.buffer.infos.iter().map(|b| tag_of(b)).collect();
    assert_eq!(tags, vec![0, 2, 1]);
    assert_eq!(scene.root.get_index(), None);
    assert_eq!(scene.root.get_background().get_index(), Some(0));
    assert_eq!(scene.root.get_inner_widget().get_index(), Some(1));
    assert_eq!(scene.root.get_border().get_index(), Some(2));
    let inner = scene.root.get_inner_widget();
    let (width, height) = inner.get_size();
    assert!(close(fl(width), 0.88));
    assert!(close(fl(height), 0.88));
    assert!(close(fl(inner.get_position().x), 0.06));
    assert!(close(fl(inner.get_position().y), 0.06));
    assert_eq!(fl(width), 1.0f32 - 0.01 - 0.01 - 0.05 - 0.05);
    let m = to_matrix(scene.buffer.transforms[1]);
    assert!(close(m.w.x, 0.06) && close(m.w.y, 0.06));
    assert!(close(m.x.x, 0.88) && close(m.y.y, 0.88));
    assert_eq!(to_matrix(scene.buffer.transforms[0]), Matrix4::<f32>::identity());
    assert_eq!(to_matrix(scene.buffer.transforms[2]), Matrix4::<f32>::identity());
    assert_eq!(scene.draw(), Ok(3));
}

#[test]
fn set_transforms_writes_in_place() {
    let mut scene = Widget2dScene::new(1280, 720, sample_tree());
    scene.traverse_and_push_all(&compose);
    let before = scene.buffer.transforms.clone();
    let infos = scene.buffer.infos.clone();
    scene.root.children[0].set_position(Vec2 { x: sc(0.5), y: sc(0.25) });
    assert_eq!(scene.traverse_and_set_transforms(&compose), Ok(()));
    assert_eq!(slots(&scene.root), vec![Some(0), Some(1), Some(2), Some(3), Some(4)]);
    assert_eq!(scene.buffer.infos, infos);
    assert_eq!(scene.buffer.transforms[0], before[0]);
    assert_eq!(scene.buffer.transforms[4], before[4]);
    for i in 1..4 {
        assert_ne!(scene.buffer.transforms[i], before[i]);
        assert_eq!(to_matrix(scene.buffer.transforms[i]).w, Vector4::new(0.5f32, 0.25, 0.0, 1.0));
    }
    assert_eq!(scene.root.children[0].children[0].get_vec_space(), scene.buffer.transforms[1]);
}

#[test]
fn send_info_writes_the_blocks_in_place() {
    let mut scene = Widget2dScene::new(1280, 720, sample_tree());
    scene.traverse_and_push_all(&compose);
    let transforms = scene.buffer.transforms.clone();
    let old_block = scene.buffer.infos[1].clone();
    scene.root.children[0].kind =
        WidgetKind::Background(BackgroundWidget { colour: v4(0.0, 1.0, 0.0, 0.5) });
    assert_eq!(scene.draw(), Ok(5));
    assert_ne!(scene.buffer.infos[1], old_block);
    assert_eq!(scene.buffer.infos[1][4..8], 0.0f32.to_le_bytes());
    assert_eq!(scene.buffer.infos[1][8..12], 1.0f32.to_le_bytes());
    assert_eq!(scene.buffer.infos[1][16..20], 0.5f32.to_le_bytes());
    assert_eq!(scene.buffer.transforms, transforms);
}

#[test]
fn scene_draw_fails_before_the_first_rebuild() {
    let mut scene = Widget2dScene::new(640, 480, sample_tree());
    assert_eq!(scene.draw(), Err(EngineError::WidgetIndexMissing));
    assert_eq!(scene.traverse_and_set_transforms(&compose), Err(EngineError::WidgetIndexMissing));
    assert_eq!(scene.buffer.len(), 0);
    assert_eq!(scene.get_size(), (640, 480));
}

#[test]
fn scene_set_size_rebuilds() {
    let mut scene = Widget2dScene::new(640, 480, sample_tree());
    scene.set_size(1920, 1080, &compose);
    assert_eq!(scene.get_size(), (1920, 1080));
    assert_eq!(scene.buffer.len(), 5);
    assert_eq!(slots(&scene.root), vec![Some(0), Some(1), Some(2), Some(3), Some(4)]);
    assert_eq!(scene.draw(), Ok(5));
}

#[test]
fn set_texture_on_a_widget_without_texture_fails() {
    let mut w = BackgroundWidget::new(v4(0.0, 0.0, 0.0, 0.0));
    assert_eq!(w.set_texture(texture()), Err(EngineError::TexturelessWidget(7)));
    assert_eq!(w.get_texture(), None);
    let mut p = picture();
    assert_eq!(p.set_texture(texture()), Err(EngineError::TexturelessWidget(7)));
    let mut t = TextureWidget::new(TextureHandle { id: 1, handle: 2 });
    assert_eq!(t.get_texture(), Some(TextureHandle { id: 1, handle: 2 }));
    assert_eq!(t.set_texture(texture()), Ok(()));
    assert_eq!(t.get_texture(), Some(texture()));
}

#[test]
fn composite_has_no_block() {
    let p = picture();
    assert_eq!(p.widget_info(), Err(EngineError::WidgetNotPrimitive));
    assert!(!p.is_primitive());
    assert!(p.get_background().is_primitive());
}

#[test]
fn background_block_layout() {
    let w = BackgroundWidget::new(v4(0.5, 0.25, 0.125, 1.0));
    let block = w.widget_info().unwrap();
    assert_eq!(block.len(), BLOCK_SIZE);
    assert_eq!(block.len(), 1024);
    let mut expected = vec![0u8, 0, 0, 0];
    expected.extend(0.5f32.to_le_bytes());
    expected.extend(0.25f32.to_le_bytes());
    expected.extend(0.125f32.to_le_bytes());
    expected.extend(1.0f32.to_le_bytes());
    assert_eq!(block[..20], expected[..]);
    assert!(block[20..].iter().all(|b| *b == 0));
}

#[test]
fn border_block_layout() {
    let w = BorderWidget::new(v4(1.0, 0.0, 0.0, 1.0), v4(0.1, 0.2, 0.3, 0.4));
    let block = w.widget_info().unwrap();
    assert_eq!(block.len(), 1024);
    let mut expected = vec![1u8, 0, 0, 0];
    for v in [1.0f32, 0.0, 0.0, 1.0, 0.1, 0.2, 0.3, 0.4] {
        expected.extend(v.to_le_bytes());
    }
    assert_eq!(block[..36], expected[..]);
    assert!(block[36..].iter().all(|b| *b == 0));
}

#[test]
fn texture_text_and_container_block_layout() {
    let t = TextureWidget::new(texture()).widget_info().unwrap();
    assert_eq!(t[..12], [2u8, 0, 0, 0, 8, 7, 6, 5, 4, 3, 2, 1]);
    assert!(t[12..].iter().all(|b| *b == 0));
    assert_eq!(t.len(), 1024);
    let mut bare = TextureWidget::new(texture());
    bare.kind = WidgetKind::Texture(TextureWidget { texture: None });
    let b = bare.widget_info().unwrap();
    assert_eq!(b[..4], [2u8, 0, 0, 0]);
    assert!(b[4..].iter().all(|x| *x == 0));
    let mut text = TextWidget::new();
    text.kind = WidgetKind::Text(TextWidget {
        colour: v4(0.25, 0.5, 0.75, 1.0),
        font_face: Some(3),
        font_size: 16,
    });
    let x = text.widget_info().unwrap();
    let mut expected = vec![3u8, 0, 0, 0];
    for v in [0.25f32, 0.5, 0.75, 1.0] {
        expected.extend(v.to_le_bytes());
    }
    assert_eq!(x[..20], expected[..]);
    assert!(x[20..].iter().all(|b| *b == 0));
    let c = ContainerWidget::new().widget_info().unwrap();
    assert_eq!(c[..4], [4u8, 0, 0, 0]);
    assert!(c[4..].iter().all(|b| *b == 0));
    assert_eq!(c.len(), 1024);
}

#[test]
fn new_widgets_fill_their_parent() {
    let w = TextWidget::new();
    assert_eq!(w.get_position(), Vec2 { x: sc(0.0), y: sc(0.0) });
    assert_eq!(w.get_size(), (sc(1.0), sc(1.0)));
    assert_eq!(w.get_rotation(), Quat { s: sc(1.0), x: sc(0.0), y: sc(0.0), z: sc(0.0) });
    assert_eq!(to_matrix(w.get_vec_space()), Matrix4::<f32>::identity());
    assert_eq!(w.get_index(), None);
    assert!(w.get_children().is_empty());
    assert_eq!(
        w.kind,
        WidgetKind::Text(TextWidget { colour: v4(0.0, 0.0, 0.0, 0.0), font_face: None, font_size: 0 })
    );
    assert_eq!(
        w.placement(),
        Placement {
            position: Vec2 { x: sc(0.0), y: sc(0.0) },
            rotation: Quat { s: sc(1.0), x: sc(0.0), y: sc(0.0), z: sc(0.0) },
            width: sc(1.0),
            height: sc(1.0),
        }
    );
}

#[test]
fn setters_change_one_thing() {
    let mut w = BackgroundWidget::new(v4(0.0, 0.0, 0.0, 0.0));
    let r = Quat { s: sc(0.0), x: sc(0.0), y: sc(0.0), z: sc(1.0) };
    w.set_rotation(r);
    w.set_vec_space(from_matrix(Matrix4::from_scale(2.0f32)));
    w.set_index(Some(9));
    assert_eq!(w.get_rotation(), r);
    assert_eq!(to_matrix(w.get_vec_space()), Matrix4::from_scale(2.0f32));
    assert_eq!(w.get_index(), Some(9));
    assert_eq!(w.get_size(), (sc(1.0), sc(1.0)));
    assert_eq!(w.get_position(), Vec2 { x: sc(0.0), y: sc(0.0) });
}

#[test]
fn framed_slots_can_be_replaced() {
    let mut p = picture();
    p.set_background(BackgroundWidget::new(v4(1.0, 1.0, 0.0, 1.0)));
    p.set_inner_widget(sample_tree());
    p.set_border(BorderWidget::new(v4(0.0, 0.0, 1.0, 1.0), v4(0.2, 0.2, 0.2, 0.2)));
    assert!(p.is_framed());
    assert_eq!(
        p.get_background().kind,
        WidgetKind::Background(BackgroundWidget { colour: v4(1.0, 1.0, 0.0, 1.0) })
    );
    assert_eq!(p.get_inner_widget().get_children().len(), 2);
    assert_eq!(p.get_border_widths(), v4(0.2, 0.2, 0.2, 0.2));
    let mut buffer = GeometryBuffer::new();
    p.traverse_and_push_all(Mat4::identity(), &mut buffer, &compose);
    assert_eq!(buffer.len(), 7);
    assert_eq!(p.get_border().get_index(), Some(6));
    let mut broken = picture();
    broken.remove_child(2);
    assert!(!broken.is_framed());
}

#[test]
fn buffer_rows_can_be_written_singly() {
    let mut buffer = GeometryBuffer::new();
    let a = BackgroundWidget::new(v4(0.0, 0.0, 0.0, 1.0)).widget_info().unwrap();
    let b = ContainerWidget::new().widget_info().unwrap();
    assert_eq!(buffer.push(Mat4::identity(), a.clone()), 0);
    assert_eq!(buffer.push(Mat4::identity(), a.clone()), 1);
    let m = from_matrix(Matrix4::from_scale(3.0f32));
    buffer.set_transform(1, m);
    buffer.set_info(0, b.clone());
    assert_eq!(buffer.transforms, vec![Mat4::identity(), m]);
    assert_eq!(buffer.infos, vec![b, a]);
    buffer.clear();
    assert_eq!(buffer.len(), 0);
    assert!(buffer.infos.is_empty());
}

#[test]
fn single_slot_writes() {
    let mut scene = Widget2dScene::new(100, 100, sample_tree());
    scene.traverse_and_push_all(&compose);
    let m = from_matrix(Matrix4::from_scale(4.0f32));
    let border = &scene.root.children[1];
    assert_eq!(border.set_transform(&mut scene.buffer, m), Ok(()));
    assert_eq!(scene.buffer.transforms[4], m);
    assert_eq!(scene.buffer.transforms[3], scene.root.children[0].children[1].transform);
    scene.root.children[1].kind = WidgetKind::Border(BorderWidget {
        colour: v4(0.0, 0.0, 0.0, 0.0),
        border_widths: v4(0.5, 0.5, 0.5, 0.5),
    });
    assert_eq!(scene.root.children[1].send_widget_info(&mut scene.buffer), Ok(()));
    assert_eq!(scene.buffer.infos[4][20..24], 0.5f32.to_le_bytes());
    let fresh = TextWidget::new();
    assert_eq!(fresh.set_transform(&mut scene.buffer, m), Err(EngineError::WidgetIndexMissing));
    assert_eq!(fresh.send_widget_info(&mut scene.buffer), Err(EngineError::WidgetIndexMissing));
    let framed = picture();
    assert_eq!(framed.set_transform(&mut scene.buffer, m), Err(EngineError::WidgetNotPrimitive));
    assert_eq!(framed.send_widget_info(&mut scene.buffer), Err(EngineError::WidgetNotPrimitive));
}

#[test]
fn children_can_be_changed_in_place() {
    let mut root = sample_tree();
    root.get_children_mut().pop();
    assert_eq!(root.get_children().len(), 1);
    let mut p = picture();
    p.get_inner_widget_mut().set_size(sc(0.5), sc(0.5));
    p.get_background_mut().set_position(Vec2 { x: sc(0.5), y: sc(0.5) });
    p.get_border_mut().set_index(Some(2));
    assert_eq!(p.get_inner_widget().get_size(), (sc(0.5), sc(0.5)));
    assert_eq!(p.get_background().get_position(), Vec2 { x: sc(0.5), y: sc(0.5) });
    assert_eq!(p.get_border().get_index(), Some(2));
    assert!(p.is_framed());
}

#[test]
fn metadata_array_is_laid_out_block_after_block() {
    let mut scene = Widget2dScene::new(100, 100, sample_tree());
    scene.traverse_and_push_all(&compose);
    let bytes = scene.buffer.info_bytes();
    assert_eq!(bytes.len(), 5 * 1024);
    for slot in 0..5 {
        assert_eq!(bytes[slot * 1024..(slot + 1) * 1024], scene.buffer.infos[slot][..]);
    }
    assert_eq!(tag_of(&bytes[4096..]), 1);
    assert!(GeometryBuffer::new().info_bytes().is_empty());
}

#[test]
fn empty_composite_takes_no_slot() {
    let mut empty = picture();
    empty.get_children_mut().clear();
    let mut root = ContainerWidget::new();
    root.insert_child(0, empty);
    root.insert_child(1, TextWidget::new());
    let mut buffer = GeometryBuffer::new();
    root.traverse_and_push_all(Mat4::identity(), &mut buffer, &compose);
    assert_eq!(buffer.len(), 2);
    assert_eq!(root.get_children()[0].get_index(), None);
    assert_eq!(root.get_children()[1].get_index(), Some(1));
    assert_eq!(root.traverse_and_send_info(&mut buffer), Ok(()));
}

#[test]
fn invalidating_a_scene_unregisters_every_widget() {
    let mut scene = Widget2dScene::new(100, 100, sample_tree());
    scene.traverse_and_push_all(&compose);
    let frames: Vec<Mat4> = scene.buffer.transforms.clone();
    scene.root.insert_child(0, TextWidget::new());
    scene.invalidate();
    assert_eq!(slots(&scene.root), vec![None, None, None, None, None, None]);
    assert_eq!(scene.buffer.len(), 0);
    assert_eq!(scene.root.children[1].transform, frames[1]);
    assert_eq!(scene.draw(), Err(EngineError::WidgetIndexMissing));
    assert_eq!(scene.traverse_and_set_transforms(&compose), Err(EngineError::WidgetIndexMissing));
    scene.traverse_and_push_all(&compose);
    assert_eq!(scene.draw(), Ok(6));
    assert_eq!(scene.root.children[1].get_index(), Some(2));
}

#[test]
fn clearing_indices_leaves_composites_alone() {
    let mut p = picture();
    p.set_index(Some(40));
    let mut buffer = GeometryBuffer::new();
    p.traverse_and_push_all(Mat4::identity(), &mut buffer, &compose);
    assert_eq!(p.get_index(), Some(40));
    p.clear_indices();
    assert_eq!(p.get_index(), Some(40));
    assert_eq!(slots(&p), vec![None, None, None]);
    assert!(p.is_framed());
    assert_eq!(p.get_padding(), v4(0.05, 0.05, 0.05, 0.05));
}

#[test]
fn an_inset_can_be_applied_as_it_is() {
    let mut p = picture();
    let inset = Inset { position: Vec2 { x: sc(0.25), y: sc(0.5) }, width: sc(0.5), height: sc(0.25) };
    p.apply_inset(inset);
    let inner = p.get_inner_widget();
    assert_eq!(inner.get_position(), Vec2 { x: sc(0.25), y: sc(0.5) });
    assert_eq!(inner.get_size(), (sc(0.5), sc(0.25)));
    assert_eq!(inner.get_texture(), Some(texture()));
    assert_eq!(p.get_padding(), v4(0.05, 0.05, 0.05, 0.05));
    p.update_inset(&inset_of);
    assert!(close(fl(p.get_inner_widget().get_size().0), 0.88));
}
