use cgmath::{vec3, Matrix4, Quaternion, SquareMatrix, Vector4};
use cinema_skylight_engine::{GameObject, Mat4, Placement3, Scalar, Vec3, Vec4};

fn sc(v: f32) -> Scalar {
    Scalar { bits: v.to_bits() }
}

fn fl(s: Scalar) -> f32 {
    f32::from_bits(s.bits)
}

fn col(v: Vec4) -> Vector4<f32> {
    Vector4::new(fl(v.x), fl(v.y), fl(v.z), fl(v.w))
}

fn uncol(v: Vector4<f32>) -> Vec4 {
    Vec4 { x: sc(v.x), y: sc(v.y), z: sc(v.z), w: sc(v.w) }
}

fn to_matrix(m: Mat4) -> Matrix4<f32> {
    Matrix4::from_cols(col(m.x), col(m.y), col(m.z), col(m.w))
}

fn from_matrix(m: Matrix4<f32>) -> Mat4 {
    Mat4 { x: uncol(m.x), y: uncol(m.y), z: uncol(m.z), w: uncol(m.w) }
}

fn compose_object(vec_space: Mat4, p: Placement3) -> Mat4 {
    let mut matrix =
        Matrix4::from_translation(vec3(fl(p.position.x), fl(p.position.y), fl(p.position.z)));
    matrix = matrix * Matrix4::from_scale(fl(p.scale));
    matrix = matrix
        * Matrix4::from(Quaternion::new(
            fl(p.rotation.s),
            fl(p.rotation.x),
            fl(p.rotation.y),
            fl(p.rotation.z),
        ));
    from_matrix(to_matrix(vec_space) * matrix)
}

fn at(x: f32, y: f32, z: f32) -> Vec3 {
    Vec3 { x: sc(x), y: sc(y), z: sc(z) }
}

#[test]
fn default_object_has_no_model() {
    let o = GameObject::default();
    assert_eq!(o.position, at(0.0, 0.0, 0.0));
    assert_eq!(fl(o.scale), 1.0);
    assert_eq!(fl(o.rotation.s), 1.0);
    assert_eq!(o.get_drawable(), None);
    assert!(o.children.is_empty());
    assert_eq!(o.model_index, 0);
}

#[test]
fn objects_take_the_next_row_of_their_model() {
    let mut models: Vec<Vec<Mat4>> = vec![Vec::new(), Vec::new()];
    let a = GameObject::from_model(1, &mut models, &compose_object);
    let b = GameObject::from_model(1, &mut models, &compose_object);
    let c = GameObject::from_model(0, &mut models, &compose_object);
    assert_eq!((a.get_drawable(), a.model_index), (Some(1), 0));
    assert_eq!((b.get_drawable(), b.model_index), (Some(1), 1));
    assert_eq!((c.get_drawable(), c.model_index), (Some(0), 0));
    assert_eq!(models[0].len(), 1);
    assert_eq!(models[1].len(), 2);
    assert_eq!(to_matrix(models[1][1]), Matrix4::<f32>::identity());
}

#[test]
fn changing_the_model_moves_the_row() {
    let mut models: Vec<Vec<Mat4>> = vec![Vec::new(), Vec::new()];
    let mut a = GameObject::from_model(0, &mut models, &compose_object);
    let _b = GameObject::from_model(0, &mut models, &compose_object);
    a.position = at(1.0, 2.0, 3.0);
    a.set_drawable(Some(1), &mut models, &compose_object);
    assert_eq!(models[0].len(), 1);
    assert_eq!(models[1].len(), 1);
    assert_eq!((a.get_drawable(), a.model_index), (Some(1), 0));
    assert_eq!(to_matrix(models[1][0]).w, Vector4::new(1.0f32, 2.0, 3.0, 1.0));
    a.set_drawable(None, &mut models, &compose_object);
    assert_eq!(models[1].len(), 0);
    assert_eq!(a.get_drawable(), None);
}

#[test]
fn transforms_are_written_down_the_tree() {
    let mut models: Vec<Vec<Mat4>> = vec![Vec::new(), Vec::new()];
    let mut root = GameObject::from_model(0, &mut models, &compose_object);
    let mut child = GameObject::from_model(1, &mut models, &compose_object);
    let mut plain = GameObject::default();
    let leaf = GameObject::from_model(0, &mut models, &compose_object);
    root.position = at(1.0, 0.0, 0.0);
    root.scale = sc(2.0);
    child.position = at(0.0, 1.0, 0.0);
    plain.position = at(0.0, 0.0, 5.0);
    plain.children.push(leaf);
    root.children.push(child);
    root.children.push(plain);
    root.set_transform_to_drawable(Mat4::identity(), &mut models, &compose_object);
    assert_eq!(models[0].len(), 2);
    assert_eq!(models[1].len(), 1);
    assert_eq!(to_matrix(models[0][0]).w, Vector4::new(1.0f32, 0.0, 0.0, 1.0));
    assert_eq!(to_matrix(models[0][0]).x.x, 2.0);
    assert_eq!(to_matrix(models[1][0]).w, Vector4::new(1.0f32, 2.0, 0.0, 1.0));
    assert_eq!(to_matrix(models[0][1]).w, Vector4::new(1.0f32, 0.0, 10.0, 1.0));
    assert_eq!(root.children[1].children[0].transform, models[0][1]);
    assert_eq!(
        root.placement(),
        Placement3 { position: at(1.0, 0.0, 0.0), rotation: root.rotation, scale: sc(2.0) }
    );
}
