use vstd::prelude::*;
use crate::scalar::{Mat4, Quat, Scalar, Vec3};

verus! {

/// Where a game object sits in its parent's frame.
#[derive(Clone, Copy, Debug, PartialEq, Eq, Structural)]
pub struct Placement3 {
    pub position: Vec3,
    pub rotation: Quat,
    pub scale: Scalar,
}

/// A node of the 3D scene. An object that is drawn names its model, by the
/// model's place in the table of transform arrays, and holds one row of that
/// model's array.
#[derive(Debug)]
pub struct GameObject {
    pub position: Vec3,
    pub rotation: Quat,
    pub scale: Scalar,
    pub children: Vec<GameObject>,
    /// The model that draws this object, if any.
    pub drawable: Option<usize>,
    /// The object's row in that model's transform array.
    pub model_index: usize,
    /// The object's frame as seen from the root, as of the last traversal.
    pub transform: Mat4,
}

/// What one object writes into the table: a transform, into one row of one
/// model's array.
pub struct Placed {
    pub drawable: Option<usize>,
    pub model_index: usize,
    pub transform: Mat4,
}

/// The table of transform arrays, one array for each model.
pub open spec fn table(models: Vec<Vec<Mat4>>) -> Seq<Seq<Mat4>> {
    models@.map_values(|rows: Vec<Mat4>| rows@)
}

/// The objects of a row of trees, tree after tree.
pub open spec fn forest_placed(s: Seq<GameObject>) -> Seq<Placed>
    decreases s,
{
    if s.len() == 0 {
        Seq::empty()
    } else {
        forest_placed(s.drop_last()) + s.last().placed()
    }
}

/// Every object of the row that names a model names one of the table, and a
/// row that the model's array has.
pub open spec fn fits(p: Seq<Placed>, t: Seq<Seq<Mat4>>) -> bool {
    forall|i: int|
        0 <= i < p.len() ==> ((#[trigger] p[i]).drawable matches Some(d) ==> d < t.len()
            && p[i].model_index < t[d as int].len())
}

/// Both tables have as many arrays, of the same lengths.
pub open spec fn same_shape(a: Seq<Seq<Mat4>>, b: Seq<Seq<Mat4>>) -> bool {
    &&& a.len() == b.len()
    &&& forall|d: int| 0 <= d < a.len() ==> (#[trigger] a[d]).len() == b[d].len()
}

/// The table after one write: the transform stands in its row, if the object
/// names a model and the row is there.
pub open spec fn written_row(t: Seq<Seq<Mat4>>, p: Placed) -> Seq<Seq<Mat4>> {
    match p.drawable {
        Some(d) => if d < t.len() && p.model_index < t[d as int].len() {
            t.update(d as int, t[d as int].update(p.model_index as int, p.transform))
        } else {
            t
        },
        None => t,
    }
}

/// The table after the writes of a row of objects, made in order.
pub open spec fn written_rows(t: Seq<Seq<Mat4>>, p: Seq<Placed>) -> Seq<Seq<Mat4>>
    decreases p.len(),
{
    if p.len() == 0 {
        t
    } else {
        written_row(written_rows(t, p.drop_last()), p.last())
    }
}

impl GameObject {
    pub open spec fn spec_placement(&self) -> Placement3 {
        Placement3 { position: self.position, rotation: self.rotation, scale: self.scale }
    }

    /// Position, rotation and scale together.
    #[verifier::when_used_as_spec(spec_placement)]
    pub fn placement(&self) -> (p: Placement3)
        ensures
            p == self.spec_placement(),
    {
        Placement3 { position: self.position, rotation: self.rotation, scale: self.scale }
    }

    /// What the object itself writes.
    pub open spec fn own_placed(&self) -> Placed {
        Placed {
            drawable: self.drawable,
            model_index: self.model_index,
            transform: self.transform,
        }
    }

    /// The objects of the tree in depth-first pre-order.
    pub open spec fn placed(&self) -> Seq<Placed>
        decreases self,
    {
        seq![self.own_placed()] + forest_placed(self.children@)
    }

    /// Both trees have the same shape and, node by node, the same placement,
    /// model and row: they differ at most in the transforms that a traversal
    /// writes.
    pub open spec fn same_objects(&self, other: &GameObject) -> bool
        decreases self,
    {
        &&& self.position == other.position
        &&& self.rotation == other.rotation
        &&& self.scale == other.scale
        &&& self.drawable == other.drawable
        &&& self.model_index == other.model_index
        &&& self.children@.len() == other.children@.len()
        &&& forall|j: int|
            0 <= j < self.children@.len() ==> (#[trigger] self.children@[j]).same_objects(
                &other.children@[j],
            )
    }

    /// The transform of every object of the tree is what `compose` gave for
    /// the transform of its parent, or for `vec_space` at the root, and the
    /// object's placement.
    pub open spec fn composed<F: Fn(Mat4, Placement3) -> Mat4>(
        &self,
        vec_space: Mat4,
        compose: F,
    ) -> bool
        decreases self,
    {
        &&& call_ensures(compose, (vec_space, self.spec_placement()), self.transform)
        &&& forall|j: int|
            0 <= j < self.children@.len() ==> (#[trigger] self.children@[j]).composed(
                self.transform,
                compose,
            )
    }
}

/// A row of trees followed by one more tree.
pub proof fn lemma_forest_placed_push(s: Seq<GameObject>, o: GameObject)
    ensures
        forest_placed(s.push(o)) == forest_placed(s) + o.placed(),
{
    assert(s.push(o).drop_last() == s);
}

/// A row of trees fits a table exactly if each tree does.
pub proof fn lemma_forest_fits(s: Seq<GameObject>, t: Seq<Seq<Mat4>>)
    ensures
        fits(forest_placed(s), t) <==> forall|j: int|
            0 <= j < s.len() ==> fits(#[trigger] s[j].placed(), t),
    decreases s.len(),
{
    if s.len() > 0 {
        let front = s.drop_last();
        let last = s.last();
        lemma_forest_fits(front, t);
        let a = forest_placed(front);
        let b = last.placed();
        assert(forest_placed(s) == a + b);
        if fits(a + b, t) {
            assert forall|i: int| 0 <= i < a.len() implies ((#[trigger] a[i]).drawable matches Some(
                d,
            ) ==> d < t.len() && a[i].model_index < t[d as int].len()) by {
                assert(a[i] == (a + b)[i]);
            }
            assert forall|i: int| 0 <= i < b.len() implies ((#[trigger] b[i]).drawable matches Some(
                d,
            ) ==> d < t.len() && b[i].model_index < t[d as int].len()) by {
                assert(b[i] == (a + b)[a.len() + i]);
            }
            assert forall|j: int| 0 <= j < s.len() implies fits(#[trigger] s[j].placed(), t) by {
                if j < front.len() {
                    assert(front[j] == s[j]);
                }
            }
        }
        if forall|j: int| 0 <= j < s.len() ==> fits(#[trigger] s[j].placed(), t) {
            assert forall|j: int| 0 <= j < front.len() implies fits(
                #[trigger] front[j].placed(),
                t,
            ) by {
                assert(front[j] == s[j]);
            }
            assert(fits(s[s.len() - 1].placed(), t));
            assert(fits(a + b, t));
        }
    }
}

/// Writing two rows of objects one after the other is writing them joined.
pub proof fn lemma_written_rows_concat(t: Seq<Seq<Mat4>>, a: Seq<Placed>, b: Seq<Placed>)
    ensures
        written_rows(t, a + b) == written_rows(written_rows(t, a), b),
    decreases b.len(),
{
    if b.len() == 0 {
        assert(a + b =~= a);
    } else {
        lemma_written_rows_concat(t, a, b.drop_last());
        assert((a + b).drop_last() =~= a + b.drop_last());
        assert((a + b).last() == b.last());
    }
}

/// Writing changes no length.
pub proof fn lemma_written_rows_shape(t: Seq<Seq<Mat4>>, p: Seq<Placed>)
    ensures
        same_shape(written_rows(t, p), t),
    decreases p.len(),
{
    if p.len() > 0 {
        lemma_written_rows_shape(t, p.drop_last());
    }
}

/// Whether an object fits a table depends on the table's lengths alone.
pub proof fn lemma_fits_same_shape(p: Seq<Placed>, a: Seq<Seq<Mat4>>, b: Seq<Seq<Mat4>>)
    requires
        same_shape(a, b),
        fits(p, a),
    ensures
        fits(p, b),
{
    assert forall|i: int| 0 <= i < p.len() implies ((#[trigger] p[i]).drawable matches Some(d)
        ==> d < b.len() && p[i].model_index < b[d as int].len()) by {
        if let Some(d) = p[i].drawable {
            assert(a[d as int].len() == b[d as int].len());
        }
    }
}

impl Default for GameObject {
    /// An object at the origin, not rotated, of scale 1, without children and
    /// without a model.
    fn default() -> (o: GameObject)
        ensures
            o.position == (Vec3 { x: Scalar::zero(), y: Scalar::zero(), z: Scalar::zero() }),
            o.rotation == Quat::identity(),
            o.scale == Scalar::one(),
            o.children@ == Seq::<GameObject>::empty(),
            o.drawable == None::<usize>,
            o.model_index == 0,
            o.transform == Mat4::identity(),
    {
        GameObject {
            position: Vec3 { x: Scalar::zero(), y: Scalar::zero(), z: Scalar::zero() },
            rotation: Quat::identity(),
            scale: Scalar::one(),
            children: Vec::new(),
            drawable: None,
            model_index: 0,
            transform: Mat4::identity(),
        }
    }
}

impl GameObject {
    pub fn get_drawable(&self) -> (d: Option<usize>)
        ensures
            d == self.drawable,
    {
        self.drawable
    }

    /// The table after this object let go of its row: the model's array
    /// without that row, if the object had a model.
    pub open spec fn released(&self, t: Seq<Seq<Mat4>>) -> Seq<Seq<Mat4>> {
        match self.drawable {
            Some(d) => t.update(d as int, t[d as int].remove(self.model_index as int)),
            None => t,
        }
    }

    /// Gives the object another model, or none. The object's old row leaves
    /// the old model's array. The new model's array gets a row at its end,
    /// which the object holds from then on; in it stands what `compose` gives
    /// for the identity and the object's placement.
    pub fn set_drawable<F: Fn(Mat4, Placement3) -> Mat4>(
        &mut self,
        drawable: Option<usize>,
        models: &mut Vec<Vec<Mat4>>,
        compose: &F,
    )
        requires
            old(self).drawable matches Some(d) ==> d < old(models)@.len() && old(self).model_index
                < old(models)@[d as int]@.len(),
            drawable matches Some(n) ==> n < old(models)@.len(),
            call_requires(*compose, (Mat4::identity(), old(self).spec_placement())),
        ensures
            *final(self) == (GameObject {
                drawable,
                model_index: final(self).model_index,
                transform: final(self).transform,
                ..*old(self)
            }),
            drawable is None ==> {
                &&& table(*final(models)) == old(self).released(table(*old(models)))
                &&& final(self).model_index == old(self).model_index
                &&& final(self).transform == old(self).transform
            },
            drawable matches Some(n) ==> {
                &&& final(self).model_index == old(self).released(table(*old(models)))[n as int].len()
                &&& call_ensures(
                    *compose,
                    (Mat4::identity(), old(self).spec_placement()),
                    final(self).transform,
                )
                &&& table(*final(models)) == old(self).released(table(*old(models))).update(
                    n as int,
                    old(self).released(table(*old(models)))[n as int].push(final(self).transform),
                )
            },
    {
        match self.drawable {
            Some(d) => {
                let rows = &mut models[d];
                let _ = rows.remove(self.model_index);
            },
            None => {},
        }
        assert(table(*models) =~= old(self).released(table(*old(models))));
        self.drawable = drawable;
        match drawable {
            Some(n) => {
                let transform = compose(Mat4::identity(), self.placement());
                let ghost mid = table(*models);
                let rows = &mut models[n];
                self.model_index = rows.len();
                rows.push(transform);
                self.transform = transform;
                assert(table(*models) =~= mid.update(n as int, mid[n as int].push(transform)));
            },
            None => {},
        }
    }

    /// An object drawn by the given model, otherwise as `default` makes it.
    pub fn from_model<F: Fn(Mat4, Placement3) -> Mat4>(
        model: usize,
        models: &mut Vec<Vec<Mat4>>,
        compose: &F,
    ) -> (o: GameObject)
        requires
            model < old(models)@.len(),
            forall|m: Mat4, p: Placement3| call_requires(*compose, (m, p)),
        ensures
            o.drawable == Some(model),
            o.model_index == old(models)@[model as int]@.len(),
            o.position == (Vec3 { x: Scalar::zero(), y: Scalar::zero(), z: Scalar::zero() }),
            o.rotation == Quat::identity(),
            o.scale == Scalar::one(),
            o.children@ == Seq::<GameObject>::empty(),
            call_ensures(*compose, (Mat4::identity(), o.spec_placement()), o.transform),
            table(*final(models)) == table(*old(models)).update(
                model as int,
                table(*old(models))[model as int].push(o.transform),
            ),
    {
        let mut obj = GameObject {
            position: Vec3 { x: Scalar::zero(), y: Scalar::zero(), z: Scalar::zero() },
            rotation: Quat::identity(),
            scale: Scalar::one(),
            children: Vec::new(),
            drawable: None,
            model_index: 0,
            transform: Mat4::identity(),
        };
        obj.set_drawable(Some(model), models, compose);
        obj
    }

    /// Writes the transforms of the whole tree into the rows that its objects
    /// hold, after positions or rotations changed: an object's transform is
    /// what `compose` gives for its parent's transform, or for `vec_space` at
    /// the root, and its own placement. No array changes its length.
    pub fn set_transform_to_drawable<F: Fn(Mat4, Placement3) -> Mat4>(
        &mut self,
        vec_space: Mat4,
        models: &mut Vec<Vec<Mat4>>,
        compose: &F,
    )
        requires
            fits(old(self).placed(), table(*old(models))),
            forall|m: Mat4, p: Placement3| call_requires(*compose, (m, p)),
        ensures
            final(self).same_objects(old(self)),
            final(self).composed(vec_space, *compose),
            table(*final(models)) == written_rows(table(*old(models)), final(self).placed()),
            same_shape(table(*final(models)), table(*old(models))),
        decreases *old(self),
    {
        let ghost start = table(*models);
        proof {
            lemma_forest_fits(self.children@, start);
            let own = seq![self.own_placed()];
            let f = forest_placed(self.children@);
            assert forall|i: int| 0 <= i < f.len() implies ((#[trigger] f[i]).drawable matches Some(
                d,
            ) ==> d < start.len() && f[i].model_index < start[d as int].len()) by {
                assert(f[i] == (own + f)[1 + i]);
            }
            assert(own[0] == (own + f)[0]);
        }
        let matrix = compose(vec_space, self.placement());
        self.transform = matrix;
        match self.drawable {
            Some(d) => {
                let rows = &mut models[d];
                rows[self.model_index] = matrix;
            },
            None => {},
        }
        proof {
            let own = seq![self.own_placed()];
            assert(own.drop_last() =~= Seq::<Placed>::empty());
            assert(written_rows(start, own.drop_last()) == start);
            assert(table(*models) =~= written_rows(start, own));
        }
        let count = self.children.len();
        let mut i: usize = 0;
        while i < count
            invariant
                i <= count,
                count == self.children@.len(),
                count == old(self).children@.len(),
                start == table(*old(models)),
                forall|m: Mat4, p: Placement3| call_requires(*compose, (m, p)),
                self.position == old(self).position,
                self.rotation == old(self).rotation,
                self.scale == old(self).scale,
                self.drawable == old(self).drawable,
                self.model_index == old(self).model_index,
                self.transform == matrix,
                call_ensures(*compose, (vec_space, self.spec_placement()), matrix),
                same_shape(table(*models), start),
                forall|j: int|
                    0 <= j < i ==> (#[trigger] self.children@[j]).same_objects(
                        &old(self).children@[j],
                    ),
                forall|j: int|
                    0 <= j < i ==> (#[trigger] self.children@[j]).composed(matrix, *compose),
                forall|j: int| i <= j < count ==> self.children@[j] == old(self).children@[j],
                forall|j: int|
                    0 <= j < count ==> fits(#[trigger] old(self).children@[j].placed(), start),
                table(*models) == written_rows(
                    start,
                    seq![self.own_placed()] + forest_placed(self.children@.take(i as int)),
                ),
            decreases count - i,
        {
            let ghost done = seq![self.own_placed()] + forest_placed(self.children@.take(i as int));
            let ghost before = self.children@;
            proof {
                lemma_fits_same_shape(old(self).children@[i as int].placed(), start, table(*models));
            }
            self.children[i].set_transform_to_drawable(matrix, models, compose);
            proof {
                let child = self.children@[i as int];
                assert(self.children@.take(i as int) =~= before.take(i as int));
                assert(self.children@.take(i + 1) =~= self.children@.take(i as int).push(child));
                lemma_forest_placed_push(self.children@.take(i as int), child);
                assert(done + child.placed() =~= seq![self.own_placed()] + forest_placed(
                    self.children@.take(i + 1),
                ));
                lemma_written_rows_concat(start, done, child.placed());
                lemma_written_rows_shape(start, done + child.placed());
            }
            i = i + 1;
        }
        assert(self.children@.take(count as int) =~= self.children@);
    }
}

} // verus!
