use crate::utils::RangeExt;
use std::ops::Range;
use vstd::prelude::*;

verus! {

/// The two solutions of a sphere's reduced quadratic along a ray, as
/// distance keys, smaller first. A ray that misses the sphere (negative
/// discriminant) has no `Roots` at all.
#[derive(Clone, Copy, Debug, PartialEq, Eq, Structural)]
pub struct Roots {
    pub near: u32,
    pub far: u32,
}

impl Roots {
    pub open spec fn wf(self) -> bool {
        self.near <= self.far
    }

    /// The root that a hit reports within the open interval `(lo, hi)`: the
    /// near one if it lies inside, else the far one if that does.
    pub open spec fn hit_spec(self, lo: u32, hi: u32) -> Option<u32> {
        if lo < self.near && self.near < hi {
            Some(self.near)
        } else if lo < self.far && self.far < hi {
            Some(self.far)
        } else {
            None
        }
    }

    pub fn new(near: u32, far: u32) -> (r: Roots)
        requires
            near <= far,
        ensures
            r.near == near,
            r.far == far,
            r.wf(),
    {
        Roots { near, far }
    }

    /// The root accepted by a hit test on the open interval `ray_t`.
    pub fn hit(&self, ray_t: &Range<u32>) -> (r: Option<u32>)
        ensures
            r == self.hit_spec(ray_t.start, ray_t.end),
    {
        if ray_t.surrounds(&self.near) {
            Some(self.near)
        } else if ray_t.surrounds(&self.far) {
            Some(self.far)
        } else {
            None
        }
    }
}

/// What one primitive reports for the interval `(lo, hi)`.
pub open spec fn hit_of(c: Option<Roots>, lo: u32, hi: u32) -> Option<u32> {
    match c {
        Some(roots) => roots.hit_spec(lo, hi),
        None => None,
    }
}

pub open spec fn all_wf(cands: Seq<Option<Roots>>) -> bool {
    forall|i: int| 0 <= i < cands.len() ==> (#[trigger] cands[i] matches Some(r) ==> r.wf())
}

/// No primitive is hit within `(lo, hi)`.
pub open spec fn no_hit(cands: Seq<Option<Roots>>, lo: u32, hi: u32) -> bool {
    forall|i: int| 0 <= i < cands.len() ==> #[trigger] hit_of(cands[i], lo, hi) is None
}

/// `t` is the smallest distance at which some primitive is hit within `(lo, hi)`.
pub open spec fn is_nearest(cands: Seq<Option<Roots>>, lo: u32, hi: u32, t: u32) -> bool {
    &&& exists|i: int| 0 <= i < cands.len() && #[trigger] hit_of(cands[i], lo, hi) == Some(t)
    &&& forall|j: int|
        0 <= j < cands.len() ==> (#[trigger] hit_of(cands[j], lo, hi) matches Some(u) ==> t <= u)
}

/// Narrowing the upper end keeps exactly the hits below it.
proof fn lemma_narrowed(c: Option<Roots>, lo: u32, mid: u32, hi: u32)
    requires
        mid <= hi,
        c matches Some(r) ==> r.wf(),
    ensures
        hit_of(c, lo, mid) == (if hit_of(c, lo, hi) matches Some(t) && t < mid {
            hit_of(c, lo, hi)
        } else {
            None
        }),
{
}

/// The index and distance of the nearest hit among `cands` within the open
/// interval `ray_t`, scanning in order with an upper end that shrinks to the
/// closest hit found so far. On equal distances the first primitive wins.
pub fn closest_hit(cands: &Vec<Option<Roots>>, ray_t: &Range<u32>) -> (r: Option<(usize, u32)>)
    requires
        all_wf(cands@),
    ensures
        r is None <==> no_hit(cands@, ray_t.start, ray_t.end),
        r matches Some((i, t)) ==> {
            &&& i < cands@.len()
            &&& hit_of(cands@[i as int], ray_t.start, ray_t.end) == Some(t)
            &&& is_nearest(cands@, ray_t.start, ray_t.end, t)
            &&& forall|j: int|
                0 <= j < i ==> #[trigger] hit_of(cands@[j], ray_t.start, ray_t.end) != Some(t)
        },
{
    let lo = ray_t.start;
    let hi = ray_t.end;
    let mut closest: u32 = hi;
    let mut best: Option<(usize, u32)> = None;
    let mut k: usize = 0;
    while k < cands.len()
        invariant
            k <= cands@.len(),
            all_wf(cands@),
            lo == ray_t.start,
            hi == ray_t.end,
            closest <= hi,
            best is None ==> closest == hi && forall|j: int|
                0 <= j < k ==> #[trigger] hit_of(cands@[j], lo, hi) is None,
            best matches Some((i, t)) ==> {
                &&& i < k
                &&& closest == t
                &&& hit_of(cands@[i as int], lo, hi) == Some(t)
                &&& forall|j: int|
                    0 <= j < k ==> (#[trigger] hit_of(cands@[j], lo, hi) matches Some(u) ==> t
                        <= u)
                &&& forall|j: int| 0 <= j < i ==> #[trigger] hit_of(cands@[j], lo, hi) != Some(t)
            },
        decreases cands@.len() - k,
    {
        proof {
            assert(cands@[k as int] matches Some(r) ==> r.wf());
            lemma_narrowed(cands@[k as int], lo, closest, hi);
        }
        let narrowed = lo..closest;
        let found = match &cands[k] {
            Some(roots) => roots.hit(&narrowed),
            None => None,
        };
        assert(found == hit_of(cands@[k as int], lo, closest));
        if let Some(t) = found {
            closest = t;
            best = Some((k, t));
        }
        k = k + 1;
    }
    proof {
        if let Some((i, t)) = best {
            assert(hit_of(cands@[i as int], lo, hi) == Some(t));
        }
    }
    best
}

/// A hit never lies on either end of the interval.
pub proof fn lemma_ends_excluded(c: Option<Roots>, lo: u32, hi: u32)
    ensures
        hit_of(c, lo, hi) != Some(lo),
        hit_of(c, lo, hi) != Some(hi),
        hit_of(c, lo, hi) matches Some(t) ==> lo < t < hi,
{
}

/// At most one distance is the nearest hit, so two scans that both report a
/// nearest distance report the same one.
pub proof fn lemma_nearest_unique(cands: Seq<Option<Roots>>, lo: u32, hi: u32, t1: u32, t2: u32)
    requires
        is_nearest(cands, lo, hi, t1),
        is_nearest(cands, lo, hi, t2),
    ensures
        t1 == t2,
{
    let i = choose|i: int| 0 <= i < cands.len() && hit_of(cands[i], lo, hi) == Some(t1);
    let j = choose|j: int| 0 <= j < cands.len() && hit_of(cands[j], lo, hi) == Some(t2);
    assert(hit_of(cands[j], lo, hi) matches Some(u) ==> t1 <= u);
    assert(hit_of(cands[i], lo, hi) matches Some(u) ==> t2 <= u);
}

/// The nearest distance does not depend on the order of the primitives:
/// exchanging any two of them leaves whether anything is hit, and at which
/// distance, unchanged.
pub proof fn lemma_order_independent(
    cands: Seq<Option<Roots>>,
    a: int,
    b: int,
    lo: u32,
    hi: u32,
    t: u32,
)
    requires
        0 <= a < cands.len(),
        0 <= b < cands.len(),
    ensures
        no_hit(cands.update(a, cands[b]).update(b, cands[a]), lo, hi) == no_hit(cands, lo, hi),
        is_nearest(cands.update(a, cands[b]).update(b, cands[a]), lo, hi, t) == is_nearest(
            cands,
            lo,
            hi,
            t,
        ),
{
    let swapped = cands.update(a, cands[b]).update(b, cands[a]);
    // each position of one sequence holds what some position of the other holds
    assert forall|i: int| 0 <= i < cands.len() implies exists|k: int|
        0 <= k < cands.len() && swapped[k] == #[trigger] cands[i] by {
        let k = if i == a {
            b
        } else if i == b {
            a
        } else {
            i
        };
        assert(swapped[k] == cands[i]);
    }
    assert forall|i: int| 0 <= i < cands.len() implies exists|k: int|
        0 <= k < cands.len() && cands[k] == #[trigger] swapped[i] by {
        let k = if i == a {
            b
        } else if i == b {
            a
        } else {
            i
        };
        assert(cands[k] == swapped[i]);
    }
    if no_hit(cands, lo, hi) {
        assert forall|i: int| 0 <= i < swapped.len() implies #[trigger] hit_of(
            swapped[i],
            lo,
            hi,
        ) is None by {
            let k = choose|k: int| 0 <= k < cands.len() && cands[k] == swapped[i];
            assert(hit_of(cands[k], lo, hi) is None);
        }
    }
    if no_hit(swapped, lo, hi) {
        assert forall|i: int| 0 <= i < cands.len() implies #[trigger] hit_of(
            cands[i],
            lo,
            hi,
        ) is None by {
            let k = choose|k: int| 0 <= k < cands.len() && swapped[k] == cands[i];
            assert(hit_of(swapped[k], lo, hi) is None);
        }
    }
    if is_nearest(cands, lo, hi, t) {
        let i = choose|i: int| 0 <= i < cands.len() && hit_of(cands[i], lo, hi) == Some(t);
        let k = choose|k: int| 0 <= k < cands.len() && swapped[k] == cands[i];
        assert(hit_of(swapped[k], lo, hi) == Some(t));
        assert forall|j: int| 0 <= j < swapped.len() implies (#[trigger] hit_of(
            swapped[j],
            lo,
            hi,
        ) matches Some(u) ==> t <= u) by {
            let m = choose|m: int| 0 <= m < cands.len() && cands[m] == swapped[j];
            assert(hit_of(cands[m], lo, hi) == hit_of(swapped[j], lo, hi));
        }
    }
    if is_nearest(swapped, lo, hi, t) {
        let i = choose|i: int| 0 <= i < swapped.len() && hit_of(swapped[i], lo, hi) == Some(t);
        let k = choose|k: int| 0 <= k < cands.len() && cands[k] == swapped[i];
        assert(hit_of(cands[k], lo, hi) == Some(t));
        assert forall|j: int| 0 <= j < cands.len() implies (#[trigger] hit_of(
            cands[j],
            lo,
            hi,
        ) matches Some(u) ==> t <= u) by {
            let m = choose|m: int| 0 <= m < cands.len() && swapped[m] == cands[j];
            assert(hit_of(swapped[m], lo, hi) == hit_of(cands[j], lo, hi));
        }
    }
}

} // verus!
