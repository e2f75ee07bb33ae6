//! The scene: its shapes and lights, the crossings of a ray with all of
//! them, the media a ray passes through, and what the color at a hit is made
//! of.

use crate::intersection::{all_numbers, is_stable_sort, Intersection, Intersections};
use crate::light::PointLight;
use crate::scalar::{Scalar, ONE_BITS};
use crate::shape::Shape;
use vstd::prelude::*;

verus! {

/// The depth of recursion that rendering starts with.
pub const RECURSION_LIMIT: isize = 5;

/// The roots of one shape, each tagged with the shape's index.
pub open spec fn tag_all(ts: Seq<Scalar>, object_id: usize) -> Seq<Intersection> {
    Seq::new(ts.len(), |i: int| Intersection { t: ts[i], object_id })
}

/// The roots of all shapes, shape after shape, each tagged with the index
/// of its shape.
pub open spec fn tagged(roots: Seq<Seq<Scalar>>) -> Seq<Intersection>
    decreases roots.len(),
{
    if roots.len() == 0 {
        Seq::empty()
    } else {
        tagged(roots.drop_last()) + tag_all(roots.last(), (roots.len() - 1) as usize)
    }
}

/// The lists of roots that a vector of vectors holds.
pub open spec fn root_lists(roots: &Vec<Vec<Scalar>>) -> Seq<Seq<Scalar>> {
    Seq::new(roots@.len(), |i: int| roots@[i]@)
}

/// `p` is the first place at which `id` stands in `containers`.
pub open spec fn is_first_position(containers: Seq<usize>, id: usize, p: int) -> bool {
    &&& 0 <= p < containers.len()
    &&& containers[p] == id
    &&& forall|j: int| 0 <= j < p ==> containers[j] != id
}

/// The shapes a ray is inside of after it crosses the surface of shape
/// `id`: a shape it was inside of it has left, any other it has entered.
pub open spec fn toggled(containers: Seq<usize>, id: usize) -> Seq<usize> {
    if containers.contains(id) {
        containers.remove(choose|p: int| is_first_position(containers, id, p))
    } else {
        containers.push(id)
    }
}

/// The shapes a ray is inside of after the first `n` crossings, the one it
/// entered last at the end.
pub open spec fn containers_after(s: Seq<Intersection>, n: int) -> Seq<usize>
    decreases n,
{
    if n <= 0 {
        Seq::empty()
    } else {
        toggled(containers_after(s, n - 1), s[n - 1].object_id)
    }
}

/// The shape whose inside a ray travels in after the first `n` crossings:
/// the one it entered last and has not left; `None` in empty space.
pub open spec fn medium_after(s: Seq<Intersection>, n: int) -> Option<usize> {
    let containers = containers_after(s, n);
    if containers.len() == 0 {
        None
    } else {
        Some(containers.last())
    }
}

/// The refractive index of a medium: that of the shape's material, and one
/// in empty space.
pub open spec fn index_of_refraction(shapes: Seq<Shape>, medium: Option<usize>) -> Scalar {
    match medium {
        Some(id) => shapes[id as int].material.refractive_index,
        None => Scalar { bits: ONE_BITS },
    }
}

/// How often the first `n` crossings cross the surface of shape `id`.
pub open spec fn crossings_of(s: Seq<Intersection>, n: int, id: usize) -> nat
    decreases n,
{
    if n <= 0 {
        0
    } else if s[n - 1].object_id == id {
        crossings_of(s, n - 1, id) + 1
    } else {
        crossings_of(s, n - 1, id)
    }
}

/// No root in any of the lists is a NaN.
pub open spec fn numbers_only(roots: &Vec<Vec<Scalar>>) -> bool {
    forall|i: int, j: int|
        0 <= i < roots@.len() && 0 <= j < roots@[i]@.len() ==> !(#[trigger] roots@[i]@[j]).nan()
}

/// Each of the first `n` crossings is with a shape whose index is below
/// `count`.
pub open spec fn first_within(s: Seq<Intersection>, n: int, count: int) -> bool {
    forall|i: int| 0 <= i < n && i < s.len() ==> (#[trigger] s[i]).object_id < count
}

/// Every crossing is with a shape whose index is below `count`.
pub open spec fn within(s: Seq<Intersection>, count: int) -> bool {
    forall|i: int| 0 <= i < s.len() ==> (#[trigger] s[i]).object_id < count
}

proof fn lemma_first_position_unique(containers: Seq<usize>, id: usize, p: int, q: int)
    requires
        is_first_position(containers, id, p),
        is_first_position(containers, id, q),
    ensures
        p == q,
{
    if p < q {
        assert(containers[p] != id);
    } else if q < p {
        assert(containers[q] != id);
    }
}

proof fn lemma_first_position_exists(containers: Seq<usize>, id: usize) -> (p: int)
    requires
        containers.contains(id),
    ensures
        is_first_position(containers, id, p),
    decreases containers.len(),
{
    let i = choose|i: int| 0 <= i < containers.len() && containers[i] == id;
    let front = containers.take(i);
    if front.contains(id) {
        let p = lemma_first_position_exists(front, id);
        assert(containers[p] == front[p]);
        assert forall|j: int| 0 <= j < p implies containers[j] != id by {
            assert(containers[j] == front[j]);
        }
        p
    } else {
        assert forall|j: int| 0 <= j < i implies containers[j] != id by {
            assert(front[j] == containers[j]);
            assert(front.contains(front[j]));
        }
        i
    }
}

/// A ray is inside a shape exactly when it has crossed the shape's surface
/// an odd number of times, and no shape stands twice among those it is
/// inside of.
pub proof fn lemma_inside_iff_odd_crossings(s: Seq<Intersection>, n: int, id: usize)
    requires
        0 <= n <= s.len(),
    ensures
        containers_after(s, n).no_duplicates(),
        containers_after(s, n).contains(id) <==> crossings_of(s, n, id) % 2 == 1,
    decreases n,
{
    if n > 0 {
        let before = containers_after(s, n - 1);
        let crossed = s[n - 1].object_id;
        lemma_inside_iff_odd_crossings(s, n - 1, id);
        lemma_inside_iff_odd_crossings(s, n - 1, crossed);
        let after = toggled(before, crossed);
        if before.contains(crossed) {
            let p = choose|p: int| is_first_position(before, crossed, p);
            let q = lemma_first_position_exists(before, crossed);
            assert(after == before.remove(p));
            assert(after.no_duplicates());
            if id == crossed {
                if after.contains(id) {
                    let k = choose|k: int| 0 <= k < after.len() && after[k] == id;
                    if k < p {
                        assert(before[k] == id);
                    } else {
                        assert(before[k + 1] == id);
                    }
                }
            } else {
                if before.contains(id) {
                    let k = choose|k: int| 0 <= k < before.len() && before[k] == id;
                    if k < p {
                        assert(after[k] == id);
                    } else {
                        assert(after[k - 1] == id);
                    }
                }
                if after.contains(id) {
                    let k = choose|k: int| 0 <= k < after.len() && after[k] == id;
                    if k < p {
                        assert(before[k] == id);
                    } else {
                        assert(before[k + 1] == id);
                    }
                }
            }
        } else {
            assert(after == before.push(crossed));
            assert(after.no_duplicates()) by {
                assert forall|a: int, b: int|
                    0 <= a < after.len() && 0 <= b < after.len() && a != b implies after[a]
                    != after[b] by {
                    if a == before.len() {
                        assert(before.contains(before[b]));
                    } else if b == before.len() {
                        assert(before.contains(before[a]));
                    }
                }
            }
            if id == crossed {
                assert(after[before.len() as int] == id);
            } else {
                if before.contains(id) {
                    let k = choose|k: int| 0 <= k < before.len() && before[k] == id;
                    assert(after[k] == id);
                }
                if after.contains(id) {
                    let k = choose|k: int| 0 <= k < after.len() && after[k] == id;
                    assert(before[k] == id);
                }
            }
        }
    }
}

/// Once a ray has crossed every surface an even number of times it is in
/// empty space again.
pub proof fn lemma_empty_space_after_even_crossings(s: Seq<Intersection>, n: int)
    requires
        0 <= n <= s.len(),
        forall|id: usize| #[trigger] crossings_of(s, n, id) % 2 == 0,
    ensures
        containers_after(s, n).len() == 0,
        medium_after(s, n) is None,
{
    let containers = containers_after(s, n);
    if containers.len() > 0 {
        let id = containers[0];
        lemma_inside_iff_odd_crossings(s, n, id);
        assert(containers.contains(id));
        assert(crossings_of(s, n, id) % 2 == 0);
    }
}

/// A ray is only ever inside shapes whose surface it has crossed.
pub proof fn lemma_containers_are_crossed(s: Seq<Intersection>, n: int, count: int)
    requires
        0 <= n <= s.len(),
        forall|i: int| 0 <= i < n ==> (#[trigger] s[i]).object_id < count,
    ensures
        forall|k: int|
            0 <= k < containers_after(s, n).len() ==> #[trigger] containers_after(s, n)[k]
                < count,
    decreases n,
{
    if n > 0 {
        let before = containers_after(s, n - 1);
        let crossed = s[n - 1].object_id;
        lemma_containers_are_crossed(s, n - 1, count);
        if before.contains(crossed) {
            let p = lemma_first_position_exists(before, crossed);
        } else {
        }
    }
}

/// The scene.
pub struct World {
    lights: Vec<PointLight>,
    shapes: Vec<Shape>,
    handle_shadows: bool,
}

impl World {
    /// The lights, in the order they were added.
    pub closed spec fn lights(&self) -> Seq<PointLight> {
        self.lights@
    }

    /// The shapes, each at the index that `add_shape` gave it.
    pub closed spec fn shapes(&self) -> Seq<Shape> {
        self.shapes@
    }

    /// Whether shapes cast shadows.
    pub closed spec fn shadows(&self) -> bool {
        self.handle_shadows
    }

    /// The empty scene, in which shapes cast shadows.
    pub fn new() -> (w: World)
        ensures
            w.lights() == Seq::<PointLight>::empty(),
            w.shapes() == Seq::<Shape>::empty(),
            w.shadows(),
    {
        World { lights: Vec::new(), shapes: Vec::new(), handle_shadows: true }
    }

    pub fn add_light(&mut self, light: PointLight)
        ensures
            final(self).lights() == old(self).lights().push(light),
            final(self).shapes() == old(self).shapes(),
            final(self).shadows() == old(self).shadows(),
    {
        self.lights.push(light);
    }

    /// Adds a shape and gives the index by which it is known from then on.
    pub fn add_shape(&mut self, object: Shape) -> (id: usize)
        ensures
            id == old(self).shapes().len(),
            final(self).shapes() == old(self).shapes().push(object),
            final(self).lights() == old(self).lights(),
            final(self).shadows() == old(self).shadows(),
    {
        let id: usize = self.shapes.len();
        self.shapes.push(object);
        id
    }

    pub fn get_lights(&self) -> (lights: &Vec<PointLight>)
        ensures
            lights@ == self.lights(),
    {
        &self.lights
    }

    pub fn get_shapes(&self) -> (shapes: &Vec<Shape>)
        ensures
            shapes@ == self.shapes(),
    {
        &self.shapes
    }

    pub fn handles_shadows(&self) -> (b: bool)
        ensures
            b == self.shadows(),
    {
        self.handle_shadows
    }

    /// The crossings of a ray with the scene, ascending along the ray, given
    /// for each shape, in index order, the roots the ray has with it.
    /// Crossings at the same parameter stay in the order of their shapes,
    /// and those of one shape in the order of its roots. A NaN cannot be
    /// ordered, so none may stand among two roots or more.
    pub fn intersect(&self, roots: &Vec<Vec<Scalar>>) -> (r: Intersections)
        requires
            roots@.len() == self.shapes().len(),
            numbers_only(roots) || tagged(root_lists(roots)).len() <= 1,
        ensures
            is_stable_sort(tagged(root_lists(roots)), r@),
            r@.to_multiset() == tagged(root_lists(roots)).to_multiset(),
            numbers_only(roots) ==> all_numbers(r@),
            within(r@, self.shapes().len() as int),
    {
        let ghost lists = root_lists(roots);
        let mut flat: Vec<Intersection> = Vec::new();
        let mut i: usize = 0;
        assert(lists.take(0) =~= Seq::<Seq<Scalar>>::empty());
        while i < roots.len()
            invariant
                i <= roots.len(),
                lists == root_lists(roots),
                flat@ == tagged(lists.take(i as int)),
                within(flat@, roots@.len() as int),
                numbers_only(roots) ==> all_numbers(flat@),
            decreases roots.len() - i,
        {
            let ts: &Vec<Scalar> = &roots[i];
            assert forall|k: int| numbers_only(roots) && 0 <= k < ts@.len() implies !(
            #[trigger] ts@[k]).nan() by {
                assert(ts@[k] == roots@[i as int]@[k]);
            }
            let ghost done = flat@;
            let mut j: usize = 0;
            assert(tag_all(ts@.take(0), i) =~= Seq::<Intersection>::empty());
            assert(done + Seq::<Intersection>::empty() =~= done);
            while j < ts.len()
                invariant
                    j <= ts.len(),
                    i < roots@.len(),
                    flat@ == done + tag_all(ts@.take(j as int), i),
                    within(flat@, roots@.len() as int),
                    numbers_only(roots) ==> all_numbers(flat@),
                    forall|k: int|
                        numbers_only(roots) && 0 <= k < ts@.len() ==> !(#[trigger] ts@[k]).nan(),
                decreases ts.len() - j,
            {
                let x: Intersection = Intersection::new(ts[j], i);
                proof {
                    assert(ts@.take(j + 1) =~= ts@.take(j as int).push(ts@[j as int]));
                    assert(tag_all(ts@.take(j + 1), i) =~= tag_all(ts@.take(j as int), i).push(x));
                    assert((done + tag_all(ts@.take(j as int), i)).push(x) =~= done + tag_all(
                        ts@.take(j as int),
                        i,
                    ).push(x));
                }
                flat.push(x);
                j += 1;
            }
            proof {
                assert(ts@.take(j as int) =~= ts@);
                assert(lists.take(i + 1).drop_last() =~= lists.take(i as int));
                assert(lists.take(i + 1).last() == ts@);
            }
            i += 1;
        }
        assert(lists.take(i as int) =~= lists);
        let r = Intersections::new(flat);
        proof {
            assert forall|k: int| 0 <= k < r@.len() implies (#[trigger] r@[k]).object_id
                < self.shapes().len() by {
                broadcast use vstd::seq_lib::group_to_multiset_ensures;

                assert(r@.contains(r@[k]));
                assert(r@.to_multiset().count(r@[k]) > 0);
                assert(flat@.contains(r@[k]));
            }
        }
        r
    }
}

} // verus!
