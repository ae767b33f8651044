//! Which root a ray takes on a sphere, and which sphere it meets first.

use vstd::prelude::*;
use crate::scalar::Scalar;

verus! {

/// Whether `t` lies strictly inside the window between `t_min` and `t_max`.
pub open spec fn within(t: Scalar, t_min: Scalar, t_max: Scalar) -> bool {
    t.spec_lt(t_max) && t.spec_gt(t_min)
}

/// What the quadratic of one ray against one sphere yields. With `oc` the
/// ray's origin less the sphere's centre, `a` the direction's dot product
/// with itself, `b` its dot product with `oc`, and `c` that of `oc` with
/// itself less the squared radius, the discriminant is `b*b - a*c` and the
/// roots are `(-b - sqrt(discriminant)) / a` and
/// `(-b + sqrt(discriminant)) / a`.
#[derive(Clone, Copy, Debug, PartialEq, Eq, Structural)]
pub struct Quadratic {
    pub discriminant: Scalar,
    pub near: Scalar,
    pub far: Scalar,
}

/// A hit among many surfaces: the place of the surface in the list, and the
/// ray's parameter where it meets that surface.
#[derive(Clone, Copy, Debug, PartialEq, Eq, Structural)]
pub struct Hit {
    pub index: usize,
    pub t: Scalar,
}

impl Quadratic {
    /// The far root is not less than the near one.
    pub open spec fn wf(self) -> bool {
        !self.far.spec_lt(self.near)
    }

    /// Whether `t` is a root that the ray may take inside the window: the
    /// discriminant is greater than zero, and `t` is one of the two roots
    /// and lies in the window.
    pub open spec fn has_root(self, t: Scalar, t_min: Scalar, t_max: Scalar) -> bool {
        &&& self.discriminant.spec_gt(Scalar { bits: 0 })
        &&& t == self.near || t == self.far
        &&& within(t, t_min, t_max)
    }

    /// The root that the ray takes inside the window: the near one if the
    /// window holds it, else the far one if the window holds that, and none
    /// unless the discriminant is greater than zero.
    pub open spec fn spec_hit(self, t_min: Scalar, t_max: Scalar) -> Option<Scalar> {
        if !self.discriminant.spec_gt(Scalar { bits: 0 }) {
            None
        } else if within(self.near, t_min, t_max) {
            Some(self.near)
        } else if within(self.far, t_min, t_max) {
            Some(self.far)
        } else {
            None
        }
    }

    /// Holds a discriminant and the two roots, the lesser root as the near
    /// one. Roots that cannot be ordered, one of them not being a number,
    /// stay as they are given.
    pub fn new(discriminant: Scalar, first: Scalar, second: Scalar) -> (q: Quadratic)
        ensures
            q.wf(),
            q.discriminant == discriminant,
            q.near == (if second.spec_lt(first) { second } else { first }),
            q.far == (if second.spec_lt(first) { first } else { second }),
    {
        if second.lt(first) {
            Quadratic { discriminant, near: second, far: first }
        } else {
            Quadratic { discriminant, near: first, far: second }
        }
    }

    /// Where the ray meets the sphere inside the window, if it does: at
    /// the least root that lies there, where the roots are in order.
    pub fn hit(&self, t_min: Scalar, t_max: Scalar) -> (res: Option<Scalar>)
        ensures
            res == self.spec_hit(t_min, t_max),
            res is None <==> forall|u: Scalar| !self.has_root(u, t_min, t_max),
            res matches Some(t) ==> self.has_root(t, t_min, t_max),
            self.wf() ==> (res matches Some(t) ==> (forall|u: Scalar|
                self.has_root(u, t_min, t_max) ==> !u.spec_lt(t))),
    {
        if self.discriminant.gt(Scalar::zero()) {
            if self.near.lt(t_max) && self.near.gt(t_min) {
                assert(self.has_root(self.near, t_min, t_max));
                return Some(self.near);
            }
            if self.far.lt(t_max) && self.far.gt(t_min) {
                assert(self.has_root(self.far, t_min, t_max));
                return Some(self.far);
            }
        }
        None
    }
}

/// The root that the ray takes is the least root inside the window: there
/// is none exactly when no root lies there, and else none that lies there
/// is less.
pub proof fn lemma_hit_is_least_root(q: Quadratic, t_min: Scalar, t_max: Scalar)
    requires
        q.wf(),
    ensures
        q.spec_hit(t_min, t_max) is None <==> forall|u: Scalar| !q.has_root(u, t_min, t_max),
        q.spec_hit(t_min, t_max) matches Some(t) ==> q.has_root(t, t_min, t_max) && (forall|
            u: Scalar,
        | q.has_root(u, t_min, t_max) ==> !u.spec_lt(t)),
{
    if let Some(t) = q.spec_hit(t_min, t_max) {
        assert(q.has_root(t, t_min, t_max));
    }
}

/// A sphere that lies behind the start of the window is missed: where
/// neither root is greater than `t_min`, there is no hit.
pub proof fn lemma_sphere_behind_is_missed(q: Quadratic, t_min: Scalar, t_max: Scalar)
    requires
        !q.near.spec_gt(t_min),
        !q.far.spec_gt(t_min),
    ensures
        q.spec_hit(t_min, t_max) is None,
{
}

/// Where the window holds both roots, the ray takes the near one, and the
/// far one is not less than it.
pub proof fn lemma_nearer_root_wins(q: Quadratic, t_min: Scalar, t_max: Scalar)
    requires
        q.wf(),
        q.discriminant.spec_gt(Scalar { bits: 0 }),
        within(q.near, t_min, t_max),
        within(q.far, t_min, t_max),
    ensures
        q.spec_hit(t_min, t_max) == Some(q.near),
        q.near.rank() <= q.far.rank(),
{
}

/// The nearest hit of a list of surfaces, found as a walk along the list
/// finds it: each surface is asked for its hit in a window that ends where
/// the nearest hit so far lies, so that a later surface replaces an earlier
/// one only by a strictly nearer hit.
pub open spec fn closest(surfaces: Seq<Quadratic>, t_min: Scalar, t_max: Scalar) -> Option<
    (int, Scalar),
>
    decreases surfaces.len(),
{
    if surfaces.len() == 0 {
        None
    } else {
        let before = closest(surfaces.drop_last(), t_min, t_max);
        let bound = match before {
            Some(h) => h.1,
            None => t_max,
        };
        match surfaces.last().spec_hit(t_min, bound) {
            Some(t) => Some((surfaces.len() - 1, t)),
            None => before,
        }
    }
}

/// Every surface of the list has its roots in order.
pub open spec fn all_wf(surfaces: Seq<Quadratic>) -> bool {
    forall|i: int| 0 <= i < surfaces.len() ==> (#[trigger] surfaces[i]).wf()
}

/// `best` is the nearest hit of the list inside the window. If it is none,
/// no surface has a root there. Else it names a surface and the root that
/// the ray takes on it; no root of any surface inside the window is less,
/// and those of the surfaces before it in the list are greater.
pub open spec fn is_nearest(
    surfaces: Seq<Quadratic>,
    t_min: Scalar,
    t_max: Scalar,
    best: Option<(int, Scalar)>,
) -> bool {
    match best {
        None => forall|j: int, u: Scalar|
            0 <= j < surfaces.len() ==> !(#[trigger] surfaces[j].has_root(u, t_min, t_max)),
        Some((i, t)) => {
            &&& 0 <= i < surfaces.len()
            &&& surfaces[i].spec_hit(t_min, t_max) == Some(t)
            &&& forall|j: int, u: Scalar|
                0 <= j < surfaces.len() && #[trigger] surfaces[j].has_root(u, t_min, t_max)
                    ==> !u.spec_lt(t) && (j < i ==> t.spec_lt(u))
        },
    }
}

/// On surfaces with their roots in order, the walk finds the nearest hit.
pub proof fn lemma_closest_is_nearest(surfaces: Seq<Quadratic>, t_min: Scalar, t_max: Scalar)
    requires
        all_wf(surfaces),
    ensures
        is_nearest(surfaces, t_min, t_max, closest(surfaces, t_min, t_max)),
    decreases surfaces.len(),
{
    if surfaces.len() > 0 {
        // The nearest hit of the list without its last surface stays the
        // nearest unless the last surface has a root before it.
        let front = surfaces.drop_last();
        lemma_closest_is_nearest(front, t_min, t_max);
        assert forall|j: int| 0 <= j < front.len() implies front[j] == surfaces[j] by {}
    }
}

/// Whether surface `i` alone reaches as near as `t`: every root of
/// another surface inside the window is greater.
pub open spec fn sole_nearest(
    surfaces: Seq<Quadratic>,
    t_min: Scalar,
    t_max: Scalar,
    i: int,
    t: Scalar,
) -> bool {
    forall|j: int, u: Scalar|
        0 <= j < surfaces.len() && j != i && #[trigger] surfaces[j].has_root(u, t_min, t_max)
            ==> t.spec_lt(u)
}

/// A surface of one list is a surface of any list with the same members.
proof fn lemma_member(a: Seq<Quadratic>, b: Seq<Quadratic>, i: int) -> (j: int)
    requires
        a.to_multiset() == b.to_multiset(),
        0 <= i < a.len(),
    ensures
        0 <= j < b.len(),
        b[j] == a[i],
{
    a.to_multiset_ensures();
    b.to_multiset_ensures();
    assert(a.to_multiset().count(a[i]) > 0);
    choose|j: int| 0 <= j < b.len() && b[j] == a[i]
}

/// The order of the surfaces does not matter. Two lists that hold the same
/// surfaces, each as often in one as in the other and each with its roots
/// in order, either both have no hit, or both have one at the same
/// distance; and where no other surface reaches as near, both name the same
/// surface and the same root.
pub proof fn lemma_closest_any_order(
    a: Seq<Quadratic>,
    b: Seq<Quadratic>,
    t_min: Scalar,
    t_max: Scalar,
)
    requires
        all_wf(a),
        a.to_multiset() == b.to_multiset(),
    ensures
        closest(a, t_min, t_max) is None <==> closest(b, t_min, t_max) is None,
        closest(a, t_min, t_max) matches Some((i, t)) ==> (closest(b, t_min, t_max) matches Some(
            (j, u),
        ) && t.rank() == u.rank() && (sole_nearest(a, t_min, t_max, i, t) ==> a[i]
            == b[j] && t == u)),
{
    assert forall|j: int| 0 <= j < b.len() implies (#[trigger] b[j]).wf() by {
        let k = lemma_member(b, a, j);
    }
    lemma_closest_is_nearest(a, t_min, t_max);
    lemma_closest_is_nearest(b, t_min, t_max);
    match (closest(a, t_min, t_max), closest(b, t_min, t_max)) {
        (None, None) => {},
        (None, Some((j, u))) => {
            let k = lemma_member(b, a, j);
            assert(a[k].has_root(u, t_min, t_max));
        },
        (Some((i, t)), None) => {
            let k = lemma_member(a, b, i);
            assert(b[k].has_root(t, t_min, t_max));
        },
        (Some((i, t)), Some((j, u))) => {
            let k = lemma_member(a, b, i);
            assert(b[k].has_root(t, t_min, t_max));
            let m = lemma_member(b, a, j);
            assert(a[m].has_root(u, t_min, t_max));
        },
    }
}

/// The nearest hit of the list inside the window.
pub fn hit(surfaces: &[Quadratic], t_min: Scalar, t_max: Scalar) -> (res: Option<Hit>)
    ensures
        res is None <==> closest(surfaces@, t_min, t_max) is None,
        res matches Some(h) ==> closest(surfaces@, t_min, t_max) == Some((h.index as int, h.t)),
        all_wf(surfaces@) ==> is_nearest(
            surfaces@,
            t_min,
            t_max,
            closest(surfaces@, t_min, t_max),
        ),
{
    let mut res: Option<Hit> = None;
    let mut closest_so_far = t_max;
    let mut i: usize = 0;
    while i < surfaces.len()
        invariant
            i <= surfaces.len(),
            res is None <==> closest(surfaces@.take(i as int), t_min, t_max) is None,
            res matches Some(h) ==> closest(surfaces@.take(i as int), t_min, t_max) == Some(
                (h.index as int, h.t),
            ),
            closest_so_far == (match res {
                Some(h) => h.t,
                None => t_max,
            }),
        decreases surfaces.len() - i,
    {
        proof {
            assert(surfaces@.take(i + 1).drop_last() == surfaces@.take(i as int));
        }
        if let Some(t) = surfaces[i].hit(t_min, closest_so_far) {
            closest_so_far = t;
            res = Some(Hit { index: i, t });
        }
        i += 1;
    }
    proof {
        assert(surfaces@.take(i as int) == surfaces@);
        if all_wf(surfaces@) {
            lemma_closest_is_nearest(surfaces@, t_min, t_max);
        }
    }
    res
}

} // verus!
