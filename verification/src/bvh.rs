use vstd::prelude::*;
use crate::bounds::{BoundingBox, Slabs};
use crate::scalar::Scalar;
use crate::shape::{HitRecord, Hittable, Ray};

verus! {

/// The most objects that a leaf of the tree holds.
pub const LEAF_SIZE: usize = 2;

/// A hit together with the ray's parameter at it.
pub type Hit = (Scalar, HitRecord);

/// A node of the tree. It stands for a run of positions in the tree's
/// ordering of the objects and remembers the box around them.
enum Node {
    Leaf { bounds: BoundingBox, first: usize, count: usize },
    Branch { bounds: BoundingBox, left: Box<Node>, right: Box<Node> },
}

/// A bounding volume hierarchy: a binary tree of nested boxes over a list of
/// objects, built once and then only asked.
pub struct Bvh<T: Hittable> {
    objects: Vec<T>,
    order: Vec<usize>,
    root: Node,
}

impl Node {
    spec fn bounds(self) -> BoundingBox {
        match self {
            Node::Leaf { bounds, .. } => bounds,
            Node::Branch { bounds, .. } => bounds,
        }
    }

    /// One past the last position that the node stands for.
    spec fn end(self) -> int
        decreases self,
    {
        match self {
            Node::Leaf { first, count, .. } => first + count,
            Node::Branch { right, .. } => right.end(),
        }
    }
}

/// Every entry of `order` is the number of one of `n` objects.
spec fn bounded(order: Seq<usize>, n: int) -> bool {
    forall|k: int| 0 <= k < order.len() ==> #[trigger] order[k] < n
}

/// Object `i` stands somewhere in `order`.
spec fn placed(order: Seq<usize>, i: int) -> bool {
    exists|k: int| 0 <= k < order.len() && #[trigger] order[k] == i
}

/// `order` lists the numbers of `n` objects, each of them at least once.
spec fn covers(order: Seq<usize>, n: int) -> bool {
    &&& order.len() == n
    &&& bounded(order, n)
    &&& forall|i: int| 0 <= i < n ==> #[trigger] placed(order, i)
}

/// The box of a leaf over the positions from `lo` up to `hi`.
spec fn leaf_hull(order: Seq<usize>, boxes: Seq<BoundingBox>, lo: int, hi: int) -> BoundingBox {
    if hi - lo <= 0 {
        BoundingBox::spec_zero()
    } else if hi - lo == 1 {
        boxes[order[lo] as int]
    } else {
        boxes[order[lo] as int].spec_union(boxes[order[lo + 1] as int])
    }
}

/// The node stands for exactly the positions from `lo` up to `hi`: a leaf
/// for at most `LEAF_SIZE` of them, a branch for the positions of its two
/// children, neither of them empty; and each node's box is the union of what
/// lies below it.
spec fn node_wf(node: Node, order: Seq<usize>, boxes: Seq<BoundingBox>, lo: int, hi: int) -> bool
    decreases node,
{
    match node {
        Node::Leaf { bounds, first, count } => {
            &&& 0 <= lo <= hi <= order.len()
            &&& first == lo
            &&& first + count == hi
            &&& count <= LEAF_SIZE
            &&& bounds == leaf_hull(order, boxes, lo, hi)
        },
        Node::Branch { bounds, left, right } => {
            &&& lo < left.end() < hi
            &&& node_wf(*left, order, boxes, lo, left.end())
            &&& node_wf(*right, order, boxes, left.end(), hi)
            &&& bounds == left.bounds().spec_union(right.bounds())
        },
    }
}

/// The boxes that the objects report.
spec fn boxes_of<T: Hittable>(objects: Seq<T>) -> Seq<BoundingBox> {
    Seq::new(objects.len(), |i: int| objects[i].bounds_of())
}

/// The bound under which the next object is tested: the parameter of the
/// best hit so far, or `t_max` while there is none.
pub open spec fn limit(best: Option<Hit>, t_max: Scalar) -> Scalar {
    match best {
        Some((t, _)) => t,
        None => t_max,
    }
}

/// What is kept of an answer to a ray between `t_min` and `t_lim`: an
/// answer outside these bounds counts as none.
pub open spec fn kept(found: Option<Hit>, t_min: Scalar, t_lim: Scalar) -> Option<Hit> {
    match found {
        Some((t, _)) => if t_min.spec_le(t) && t.spec_le(t_lim) {
            found
        } else {
            None
        },
        None => None,
    }
}

/// What an object answers to a ray between `t_min` and `t_lim`, an answer
/// outside these bounds counting as none.
pub open spec fn answer<T: Hittable>(obj: T, ray: Ray, t_min: Scalar, t_lim: Scalar) -> Option<
    Hit,
> {
    kept(obj.hit_of(ray, t_min, t_lim), t_min, t_lim)
}

/// The best hit after one more object was tested.
pub open spec fn visit<T: Hittable>(
    obj: T,
    ray: Ray,
    t_min: Scalar,
    t_max: Scalar,
    best: Option<Hit>,
) -> Option<Hit> {
    match answer(obj, ray, t_min, limit(best, t_max)) {
        Some(found) => Some(found),
        None => best,
    }
}

/// The best hit after the objects at `count` positions from `first` on were
/// tested in turn.
spec fn scan_leaf<T: Hittable>(
    objects: Seq<T>,
    order: Seq<usize>,
    first: int,
    count: int,
    ray: Ray,
    t_min: Scalar,
    t_max: Scalar,
    best: Option<Hit>,
) -> Option<Hit>
    decreases count,
{
    if count <= 0 {
        best
    } else {
        visit(
            objects[order[first + count - 1] as int],
            ray,
            t_min,
            t_max,
            scan_leaf(objects, order, first, count - 1, ray, t_min, t_max, best),
        )
    }
}

/// The best hit after a node was walked: nothing changes where the ray
/// misses the node's box within the current bounds; else a leaf's objects
/// are tested in turn, and a branch's children walked, the left one first.
spec fn scan<T: Hittable>(
    node: Node,
    objects: Seq<T>,
    order: Seq<usize>,
    ray: Ray,
    t_min: Scalar,
    t_max: Scalar,
    best: Option<Hit>,
) -> Option<Hit>
    decreases node,
{
    if !T::slabs_of(ray, node.bounds()).spec_overlap(t_min, limit(best, t_max)) {
        best
    } else {
        match node {
            Node::Leaf { first, count, .. } => scan_leaf(
                objects,
                order,
                first as int,
                count as int,
                ray,
                t_min,
                t_max,
                best,
            ),
            Node::Branch { left, right, .. } => scan(
                *right,
                objects,
                order,
                ray,
                t_min,
                t_max,
                scan(*left, objects, order, ray, t_min, t_max, best),
            ),
        }
    }
}

proof fn lemma_swap_covers(order: Seq<usize>, n: int, a: int, b: int)
    requires
        covers(order, n),
        0 <= a < n,
        0 <= b < n,
    ensures
        covers(order.update(a, order[b]).update(b, order[a]), n),
{
    let swapped = order.update(a, order[b]).update(b, order[a]);
    assert forall|i: int| 0 <= i < n implies #[trigger] placed(swapped, i) by {
        assert(placed(order, i));
        let k = choose|k: int| 0 <= k < order.len() && #[trigger] order[k] == i;
        let k2 = if k == a {
            b
        } else if k == b {
            a
        } else {
            k
        };
        assert(swapped[k2] == i);
    }
}

/// A node that is well formed stays so where the ordering keeps its
/// positions.
proof fn lemma_node_frame(
    node: Node,
    before: Seq<usize>,
    after: Seq<usize>,
    boxes: Seq<BoundingBox>,
    lo: int,
    hi: int,
)
    requires
        node_wf(node, before, boxes, lo, hi),
        before.len() == after.len(),
        forall|k: int| lo <= k < hi ==> before[k] == after[k],
    ensures
        node_wf(node, after, boxes, lo, hi),
    decreases node,
{
    match node {
        Node::Leaf { .. } => {},
        Node::Branch { left, right, .. } => {
            lemma_node_span(*left, before, boxes, lo, left.end());
            lemma_node_span(*right, before, boxes, left.end(), hi);
            lemma_node_frame(*left, before, after, boxes, lo, left.end());
            lemma_node_frame(*right, before, after, boxes, left.end(), hi);
        },
    }
}

/// The positions of a well-formed node lie within the ordering, and the
/// node ends where it is said to.
proof fn lemma_node_span(node: Node, order: Seq<usize>, boxes: Seq<BoundingBox>, lo: int, hi: int)
    requires
        node_wf(node, order, boxes, lo, hi),
    ensures
        0 <= lo <= hi <= order.len(),
        node.end() == hi,
    decreases node,
{
    match node {
        Node::Leaf { .. } => {},
        Node::Branch { left, right, .. } => {
            lemma_node_span(*left, order, boxes, lo, left.end());
            lemma_node_span(*right, order, boxes, left.end(), hi);
        },
    }
}

/// Where no box holds a NaN, a node's box holds the box of every object
/// below it.
proof fn lemma_node_encloses(
    node: Node,
    order: Seq<usize>,
    boxes: Seq<BoundingBox>,
    lo: int,
    hi: int,
)
    requires
        node_wf(node, order, boxes, lo, hi),
        bounded(order, boxes.len() as int),
        forall|i: int| 0 <= i < boxes.len() ==> (#[trigger] boxes[i]).is_numeric(),
    ensures
        node.bounds().is_numeric(),
        forall|k: int| lo <= k < hi ==> node.bounds().encloses(#[trigger] boxes[order[k] as int]),
        lo < hi ==> forall|around: BoundingBox|
            (forall|k: int| lo <= k < hi ==> around.encloses(#[trigger] boxes[order[k] as int]))
                ==> #[trigger] around.encloses(node.bounds()),
    decreases node,
{
    match node {
        Node::Leaf { .. } => {
            if hi - lo == 2 {
                BoundingBox::lemma_union(boxes[order[lo] as int], boxes[order[lo + 1] as int]);
            }
        },
        Node::Branch { left, right, .. } => {
            let mid = left.end();
            lemma_node_span(*left, order, boxes, lo, mid);
            lemma_node_span(*right, order, boxes, mid, hi);
            lemma_node_encloses(*left, order, boxes, lo, mid);
            lemma_node_encloses(*right, order, boxes, mid, hi);
            BoundingBox::lemma_union(left.bounds(), right.bounds());
            assert forall|k: int| lo <= k < hi implies node.bounds().encloses(
                #[trigger] boxes[order[k] as int],
            ) by {
                if k < mid {
                    BoundingBox::lemma_encloses_trans(
                        node.bounds(),
                        left.bounds(),
                        boxes[order[k] as int],
                    );
                } else {
                    BoundingBox::lemma_encloses_trans(
                        node.bounds(),
                        right.bounds(),
                        boxes[order[k] as int],
                    );
                }
            }
        },
    }
}

/// What is left of an answer when the upper bound comes down to `lim`.
pub open spec fn clip(found: Option<Hit>, lim: Scalar) -> Option<Hit> {
    match found {
        Some((t, _)) => if t.spec_le(lim) {
            found
        } else {
            None
        },
        None => None,
    }
}

/// The objects answer a narrower range as they answer the whole range,
/// less the hits beyond the narrower bound.
pub open spec fn narrowing_consistent<T: Hittable>(
    objects: Seq<T>,
    ray: Ray,
    t_min: Scalar,
    t_max: Scalar,
) -> bool {
    forall|i: int, lim: Scalar|
        0 <= i < objects.len() && t_min.spec_le(lim) && lim.spec_le(t_max) ==> #[trigger] answer(
            objects[i],
            ray,
            t_min,
            lim,
        ) == clip(answer(objects[i], ray, t_min, t_max), lim)
}

/// No object is struck within a range in which the ray misses a box around
/// the object's own box.
pub open spec fn pruning_sound<T: Hittable>(objects: Seq<T>, ray: Ray, t_min: Scalar) -> bool {
    forall|i: int, around: BoundingBox, lim: Scalar|
        #![trigger answer(objects[i], ray, t_min, lim), T::slabs_of(ray, around)]
        0 <= i < objects.len() && around.encloses(objects[i].bounds_of()) && !T::slabs_of(
            ray,
            around,
        ).spec_overlap(t_min, lim) ==> answer(objects[i], ray, t_min, lim) is None
}

/// `best` is no farther than the answer `found`.
pub open spec fn beats(best: Option<Hit>, found: Option<Hit>) -> bool {
    found matches Some((t, _)) ==> (best matches Some((tb, _)) && tb.rank() <= t.rank())
}

/// `best` is an answer that some object gave to a ray between `t_min` and a
/// bound of at most `t_max`.
spec fn reported<T: Hittable>(
    objects: Seq<T>,
    ray: Ray,
    t_min: Scalar,
    t_max: Scalar,
    best: Option<Hit>,
) -> bool {
    best matches Some(found) ==> exists|i: int, lim: Scalar|
        0 <= i < objects.len() && lim.spec_le(t_max) && #[trigger] answer(
            objects[i],
            ray,
            t_min,
            lim,
        ) == Some(found)
}

/// `best` is the nearest of the answers that the objects at the positions
/// before `p` give over the whole range.
spec fn closest_upto<T: Hittable>(
    objects: Seq<T>,
    order: Seq<usize>,
    p: int,
    ray: Ray,
    t_min: Scalar,
    t_max: Scalar,
    best: Option<Hit>,
) -> bool {
    &&& best matches Some(found) ==> exists|k: int|
        0 <= k < p && #[trigger] answer(objects[order[k] as int], ray, t_min, t_max) == Some(
            found,
        )
    &&& forall|k: int|
        0 <= k < p ==> beats(
            best,
            #[trigger] answer(objects[order[k] as int], ray, t_min, t_max),
        )
}

proof fn lemma_visit_reported<T: Hittable>(
    objects: Seq<T>,
    i: int,
    ray: Ray,
    t_min: Scalar,
    t_max: Scalar,
    best: Option<Hit>,
)
    requires
        0 <= i < objects.len(),
        reported(objects, ray, t_min, t_max, best),
    ensures
        reported(objects, ray, t_min, t_max, visit(objects[i], ray, t_min, t_max, best)),
{
}

proof fn lemma_leaf_reported<T: Hittable>(
    objects: Seq<T>,
    order: Seq<usize>,
    first: int,
    count: int,
    ray: Ray,
    t_min: Scalar,
    t_max: Scalar,
    best: Option<Hit>,
)
    requires
        0 <= first,
        0 <= count,
        first + count <= order.len(),
        bounded(order, objects.len() as int),
        reported(objects, ray, t_min, t_max, best),
    ensures
        reported(
            objects,
            ray,
            t_min,
            t_max,
            scan_leaf(objects, order, first, count, ray, t_min, t_max, best),
        ),
    decreases count,
{
    if count > 0 {
        lemma_leaf_reported(objects, order, first, count - 1, ray, t_min, t_max, best);
        lemma_visit_reported(
            objects,
            order[first + count - 1] as int,
            ray,
            t_min,
            t_max,
            scan_leaf(objects, order, first, count - 1, ray, t_min, t_max, best),
        );
    }
}

proof fn lemma_scan_reported<T: Hittable>(
    node: Node,
    objects: Seq<T>,
    order: Seq<usize>,
    lo: int,
    hi: int,
    ray: Ray,
    t_min: Scalar,
    t_max: Scalar,
    best: Option<Hit>,
)
    requires
        node_wf(node, order, boxes_of(objects), lo, hi),
        bounded(order, objects.len() as int),
        reported(objects, ray, t_min, t_max, best),
    ensures
        reported(objects, ray, t_min, t_max, scan(node, objects, order, ray, t_min, t_max, best)),
    decreases node,
{
    if T::slabs_of(ray, node.bounds()).spec_overlap(t_min, limit(best, t_max)) {
        match node {
            Node::Leaf { first, count, .. } => {
                lemma_leaf_reported(
                    objects,
                    order,
                    first as int,
                    count as int,
                    ray,
                    t_min,
                    t_max,
                    best,
                );
            },
            Node::Branch { left, right, .. } => {
                lemma_scan_reported(
                    *left,
                    objects,
                    order,
                    lo,
                    left.end(),
                    ray,
                    t_min,
                    t_max,
                    best,
                );
                lemma_scan_reported(
                    *right,
                    objects,
                    order,
                    left.end(),
                    hi,
                    ray,
                    t_min,
                    t_max,
                    scan(*left, objects, order, ray, t_min, t_max, best),
                );
            },
        }
    }
}

/// What a narrower bound leaves of an object's answer, where the bound is
/// that of the best hit so far.
proof fn lemma_narrowed<T: Hittable>(
    objects: Seq<T>,
    order: Seq<usize>,
    p: int,
    at: int,
    ray: Ray,
    t_min: Scalar,
    t_max: Scalar,
    best: Option<Hit>,
)
    requires
        0 <= at < order.len(),
        bounded(order, objects.len() as int),
        narrowing_consistent(objects, ray, t_min, t_max),
        closest_upto(objects, order, p, ray, t_min, t_max, best),
    ensures
        answer(objects[order[at] as int], ray, t_min, limit(best, t_max)) == (match best {
            Some((tb, _)) => clip(answer(objects[order[at] as int], ray, t_min, t_max), tb),
            None => answer(objects[order[at] as int], ray, t_min, t_max),
        }),
        best matches Some((tb, _)) ==> t_min.spec_le(tb) && tb.spec_le(t_max),
{
}

proof fn lemma_visit_closest<T: Hittable>(
    objects: Seq<T>,
    order: Seq<usize>,
    p: int,
    ray: Ray,
    t_min: Scalar,
    t_max: Scalar,
    best: Option<Hit>,
)
    requires
        0 <= p < order.len(),
        bounded(order, objects.len() as int),
        narrowing_consistent(objects, ray, t_min, t_max),
        closest_upto(objects, order, p, ray, t_min, t_max, best),
    ensures
        closest_upto(
            objects,
            order,
            p + 1,
            ray,
            t_min,
            t_max,
            visit(objects[order[p] as int], ray, t_min, t_max, best),
        ),
{
    lemma_narrowed(objects, order, p, p, ray, t_min, t_max, best);
}

proof fn lemma_leaf_closest<T: Hittable>(
    objects: Seq<T>,
    order: Seq<usize>,
    first: int,
    count: int,
    ray: Ray,
    t_min: Scalar,
    t_max: Scalar,
    best: Option<Hit>,
)
    requires
        0 <= first,
        0 <= count,
        first + count <= order.len(),
        bounded(order, objects.len() as int),
        narrowing_consistent(objects, ray, t_min, t_max),
        closest_upto(objects, order, first, ray, t_min, t_max, best),
    ensures
        closest_upto(
            objects,
            order,
            first + count,
            ray,
            t_min,
            t_max,
            scan_leaf(objects, order, first, count, ray, t_min, t_max, best),
        ),
    decreases count,
{
    if count > 0 {
        lemma_leaf_closest(objects, order, first, count - 1, ray, t_min, t_max, best);
        lemma_visit_closest(
            objects,
            order,
            first + count - 1,
            ray,
            t_min,
            t_max,
            scan_leaf(objects, order, first, count - 1, ray, t_min, t_max, best),
        );
    }
}

proof fn lemma_prune_closest<T: Hittable>(
    node: Node,
    objects: Seq<T>,
    order: Seq<usize>,
    lo: int,
    hi: int,
    ray: Ray,
    t_min: Scalar,
    t_max: Scalar,
    best: Option<Hit>,
)
    requires
        node_wf(node, order, boxes_of(objects), lo, hi),
        bounded(order, objects.len() as int),
        forall|i: int| 0 <= i < objects.len() ==> (#[trigger] objects[i].bounds_of()).is_numeric(),
        narrowing_consistent(objects, ray, t_min, t_max),
        pruning_sound(objects, ray, t_min),
        closest_upto(objects, order, lo, ray, t_min, t_max, best),
        !T::slabs_of(ray, node.bounds()).spec_overlap(t_min, limit(best, t_max)),
    ensures
        closest_upto(objects, order, hi, ray, t_min, t_max, best),
{
    let boxes = boxes_of(objects);
    lemma_node_span(node, order, boxes, lo, hi);
    lemma_node_encloses(node, order, boxes, lo, hi);
    assert forall|k: int| 0 <= k < hi implies beats(
        best,
        #[trigger] answer(objects[order[k] as int], ray, t_min, t_max),
    ) by {
        if k >= lo {
            let i = order[k] as int;
            assert(boxes[i] == objects[i].bounds_of());
            lemma_narrowed(objects, order, lo, k, ray, t_min, t_max, best);
        }
    }
}

proof fn lemma_scan_closest<T: Hittable>(
    node: Node,
    objects: Seq<T>,
    order: Seq<usize>,
    lo: int,
    hi: int,
    ray: Ray,
    t_min: Scalar,
    t_max: Scalar,
    best: Option<Hit>,
)
    requires
        node_wf(node, order, boxes_of(objects), lo, hi),
        bounded(order, objects.len() as int),
        forall|i: int| 0 <= i < objects.len() ==> (#[trigger] objects[i].bounds_of()).is_numeric(),
        narrowing_consistent(objects, ray, t_min, t_max),
        pruning_sound(objects, ray, t_min),
        closest_upto(objects, order, lo, ray, t_min, t_max, best),
    ensures
        closest_upto(
            objects,
            order,
            hi,
            ray,
            t_min,
            t_max,
            scan(node, objects, order, ray, t_min, t_max, best),
        ),
    decreases node,
{
    lemma_node_span(node, order, boxes_of(objects), lo, hi);
    if !T::slabs_of(ray, node.bounds()).spec_overlap(t_min, limit(best, t_max)) {
        lemma_prune_closest(node, objects, order, lo, hi, ray, t_min, t_max, best);
    } else {
        match node {
            Node::Leaf { first, count, .. } => {
                lemma_leaf_closest(
                    objects,
                    order,
                    first as int,
                    count as int,
                    ray,
                    t_min,
                    t_max,
                    best,
                );
            },
            Node::Branch { left, right, .. } => {
                lemma_scan_closest(
                    *left,
                    objects,
                    order,
                    lo,
                    left.end(),
                    ray,
                    t_min,
                    t_max,
                    best,
                );
                lemma_scan_closest(
                    *right,
                    objects,
                    order,
                    left.end(),
                    hi,
                    ray,
                    t_min,
                    t_max,
                    scan(*left, objects, order, ray, t_min, t_max, best),
                );
            },
        }
    }
}

/// Exchanges two entries of the ordering.
fn exchange(order: &mut Vec<usize>, a: usize, b: usize, Ghost(n): Ghost<int>)
    requires
        covers(old(order)@, n),
        a < n,
        b < n,
    ensures
        final(order)@ == old(order)@.update(a as int, old(order)@[b as int]).update(
            b as int,
            old(order)@[a as int],
        ),
        covers(final(order)@, n),
{
    proof {
        lemma_swap_covers(order@, n, a as int, b as int);
    }
    let at_a: usize = order[a];
    let at_b: usize = order[b];
    order.set(a, at_b);
    order.set(b, at_a);
}

/// Brings the objects whose box begins, on the given axis, before the box
/// of the middle object to the front of the run from `lo` up to `hi`, and
/// says where the run is to be cut: after them, or in the middle where that
/// would leave one side with less than a quarter of the run.
fn partition(
    boxes: &Vec<BoundingBox>,
    order: &mut Vec<usize>,
    lo: usize,
    hi: usize,
    axis: usize,
) -> (mid: usize)
    requires
        covers(old(order)@, boxes.len() as int),
        lo + 2 <= hi <= boxes.len(),
    ensures
        covers(final(order)@, boxes.len() as int),
        forall|k: int|
            !(lo <= k < hi) && 0 <= k < boxes.len() ==> final(order)@[k] == old(order)@[k],
        lo < mid < hi,
{
    let middle: usize = lo + (hi - lo) / 2;
    let pivot: i64 = boxes[order[middle]].min.axis(axis).key();
    let mut store: usize = lo;
    let mut k: usize = lo;
    while k < hi
        invariant
            lo <= store <= k <= hi <= boxes.len(),
            covers(order@, boxes.len() as int),
            forall|j: int| !(lo <= j < hi) && 0 <= j < boxes.len() ==> order@[j] == old(order)@[j],
        decreases hi - k,
    {
        if boxes[order[k]].min.axis(axis).key() < pivot {
            exchange(order, store, k, Ghost(boxes.len() as int));
            store = store + 1;
        }
        k = k + 1;
    }
    let quarter: usize = (hi - lo) / 4;
    if store <= lo + quarter || store >= hi - quarter {
        middle
    } else {
        store
    }
}

/// The box of a leaf.
fn leaf_bounds(boxes: &Vec<BoundingBox>, order: &Vec<usize>, lo: usize, hi: usize) -> (r:
    BoundingBox)
    requires
        bounded(order@, boxes.len() as int),
        lo <= hi <= order.len(),
        hi - lo <= LEAF_SIZE,
    ensures
        r == leaf_hull(order@, boxes@, lo as int, hi as int),
{
    if hi - lo == 0 {
        BoundingBox::zero()
    } else if hi - lo == 1 {
        boxes[order[lo]]
    } else {
        boxes[order[lo]].union(boxes[order[lo + 1]])
    }
}

fn node_bounds(node: &Node) -> (r: BoundingBox)
    ensures
        r == node.bounds(),
{
    match node {
        Node::Leaf { bounds, .. } => *bounds,
        Node::Branch { bounds, .. } => *bounds,
    }
}

/// Builds the node for the positions from `lo` up to `hi`, cutting on the
/// given axis and on the next one below.
fn build_node(
    boxes: &Vec<BoundingBox>,
    order: &mut Vec<usize>,
    lo: usize,
    hi: usize,
    axis: usize,
) -> (node: Node)
    requires
        covers(old(order)@, boxes.len() as int),
        lo <= hi <= boxes.len(),
    ensures
        covers(final(order)@, boxes.len() as int),
        forall|k: int|
            !(lo <= k < hi) && 0 <= k < boxes.len() ==> final(order)@[k] == old(order)@[k],
        node_wf(node, final(order)@, boxes@, lo as int, hi as int),
    decreases hi - lo,
{
    if hi - lo <= LEAF_SIZE {
        let bounds = leaf_bounds(boxes, order, lo, hi);
        Node::Leaf { bounds, first: lo, count: hi - lo }
    } else {
        let next: usize = if axis >= 2 {
            0
        } else {
            axis + 1
        };
        let mid = partition(boxes, order, lo, hi, axis);
        let left = build_node(boxes, order, lo, mid, next);
        let ghost between = order@;
        let right = build_node(boxes, order, mid, hi, next);
        proof {
            lemma_node_span(left, between, boxes@, lo as int, mid as int);
            lemma_node_span(right, order@, boxes@, mid as int, hi as int);
            lemma_node_frame(left, between, order@, boxes@, lo as int, mid as int);
        }
        let bounds = node_bounds(&left).union(node_bounds(&right));
        Node::Branch { bounds, left: Box::new(left), right: Box::new(right) }
    }
}

/// Tests one object and keeps the nearer of its answer and the best so far.
fn visit_object<T: Hittable>(
    obj: &T,
    ray: &Ray,
    t_min: Scalar,
    t_max: Scalar,
    best: Option<Hit>,
) -> (r: Option<Hit>)
    ensures
        r == visit(*obj, *ray, t_min, t_max, best),
{
    let lim = match best {
        Some((t, _)) => t,
        None => t_max,
    };
    match obj.hit(ray, t_min, lim) {
        Some((t, h)) => {
            if t_min.le(t) && t.le(lim) {
                Some((t, h))
            } else {
                best
            }
        },
        None => best,
    }
}

fn scan_node<T: Hittable>(
    node: &Node,
    objects: &Vec<T>,
    order: &Vec<usize>,
    ray: &Ray,
    t_min: Scalar,
    t_max: Scalar,
    best: Option<Hit>,
    Ghost(lo): Ghost<int>,
    Ghost(hi): Ghost<int>,
) -> (r: Option<Hit>)
    requires
        node_wf(*node, order@, boxes_of(objects@), lo, hi),
        bounded(order@, objects.len() as int),
    ensures
        r == scan(*node, objects@, order@, *ray, t_min, t_max, best),
    decreases *node,
{
    let lim = match best {
        Some((t, _)) => t,
        None => t_max,
    };
    let slabs = T::slabs(ray, &node_bounds(node));
    if !slabs.overlap(t_min, lim) {
        return best;
    }
    match node {
        Node::Leaf { first, count, .. } => {
            let mut found = best;
            let mut k: usize = 0;
            while k < *count
                invariant
                    0 <= k <= *count,
                    *first + *count <= order.len(),
                    bounded(order@, objects.len() as int),
                    found == scan_leaf(
                        objects@,
                        order@,
                        *first as int,
                        k as int,
                        *ray,
                        t_min,
                        t_max,
                        best,
                    ),
                decreases *count - k,
            {
                let at: usize = order[*first + k];
                found = visit_object(&objects[at], ray, t_min, t_max, found);
                k = k + 1;
            }
            found
        },
        Node::Branch { left, right, .. } => {
            let after_left = scan_node(
                left,
                objects,
                order,
                ray,
                t_min,
                t_max,
                best,
                Ghost(lo),
                Ghost(left.end()),
            );
            scan_node(
                right,
                objects,
                order,
                ray,
                t_min,
                t_max,
                after_left,
                Ghost(left.end()),
                Ghost(hi),
            )
        },
    }
}

impl<T: Hittable> Bvh<T> {
    #[verifier::type_invariant]
    spec fn inv(self) -> bool {
        self.well_formed()
    }

    /// The tree covers every object and each of its boxes is the union of
    /// what lies below it.
    pub closed spec fn well_formed(self) -> bool {
        &&& covers(self.order@, self.objects@.len() as int)
        &&& node_wf(
            self.root,
            self.order@,
            boxes_of(self.objects@),
            0,
            self.objects@.len() as int,
        )
    }

    /// The objects, as they were handed to `build`.
    pub closed spec fn objects(self) -> Seq<T> {
        self.objects@
    }

    /// The box at the root.
    pub closed spec fn hull(self) -> BoundingBox {
        self.root.bounds()
    }

    /// What the walk of the tree finds for a ray between `t_min` and
    /// `t_max`.
    pub closed spec fn closest(self, ray: Ray, t_min: Scalar, t_max: Scalar) -> Option<Hit> {
        scan(self.root, self.objects@, self.order@, ray, t_min, t_max, None)
    }

    /// Builds the tree over the objects. A tree over no object has the box
    /// at the origin.
    pub fn build(objects: Vec<T>) -> (bvh: Bvh<T>)
        ensures
            bvh.well_formed(),
            bvh.objects() == objects@,
            objects@.len() == 0 ==> bvh.hull() == BoundingBox::spec_zero(),
    {
        let n: usize = objects.len();
        let mut boxes: Vec<BoundingBox> = Vec::new();
        let mut order: Vec<usize> = Vec::new();
        let mut i: usize = 0;
        while i < n
            invariant
                0 <= i <= n,
                n == objects.len(),
                boxes.len() == i,
                order.len() == i,
                forall|k: int| 0 <= k < i ==> #[trigger] boxes@[k] == objects@[k].bounds_of(),
                forall|k: int| 0 <= k < i ==> #[trigger] order@[k] == k,
            decreases n - i,
        {
            boxes.push(objects[i].bounds());
            order.push(i);
            i = i + 1;
        }
        proof {
            assert(boxes@ =~= boxes_of(objects@));
            assert forall|j: int| 0 <= j < n implies #[trigger] placed(order@, j) by {
                assert(order@[j] == j);
            }
        }
        let root = build_node(&boxes, &mut order, 0, n, 0);
        let bvh = Bvh { objects, order, root };
        proof {
            if n == 0 {
                bvh.lemma_empty_hull();
            }
        }
        bvh
    }

    /// The number of objects.
    pub fn len(&self) -> (n: usize)
        ensures
            n == self.objects().len(),
    {
        self.objects.len()
    }

    /// The object with the given number, counted as `build` got them.
    pub fn get(&self, i: usize) -> (r: Option<&T>)
        ensures
            r == (if i < self.objects().len() {
                Some(&self.objects()[i as int])
            } else {
                None
            }),
    {
        if i < self.objects.len() {
            Some(&self.objects[i])
        } else {
            None
        }
    }

    /// The box around all the objects, as it was found when the tree was
    /// built.
    pub fn bounds(&self) -> (b: BoundingBox)
        ensures
            self.well_formed(),
            b == self.hull(),
    {
        proof {
            use_type_invariant(self);
        }
        node_bounds(&self.root)
    }

    /// The nearest hit of the ray between `t_min` and `t_max`.
    pub fn ray_hit(&self, ray: &Ray, t_min: Scalar, t_max: Scalar) -> (r: Option<Hit>)
        ensures
            self.well_formed(),
            r == self.closest(*ray, t_min, t_max),
            r matches Some((t, h)) ==> t_min.spec_le(t) && t.spec_le(t_max) && exists|
                i: int,
                lim: Scalar,
            |
                0 <= i < self.objects().len() && lim.spec_le(t_max) && #[trigger] answer(
                    self.objects()[i],
                    *ray,
                    t_min,
                    lim,
                ) == Some((t, h)),
            self.objects().len() == 0 ==> r is None,
    {
        proof {
            use_type_invariant(self);
            self.lemma_hit_is_reported(*ray, t_min, t_max);
        }
        scan_node(
            &self.root,
            &self.objects,
            &self.order,
            ray,
            t_min,
            t_max,
            None,
            Ghost(0),
            Ghost(self.objects@.len() as int),
        )
    }

    /// Whatever the objects are, a hit that the tree reports lies between
    /// `t_min` and `t_max` and is the answer that one of the objects gave
    /// within these bounds; and a tree over no object reports none.
    pub proof fn lemma_hit_is_reported(self, ray: Ray, t_min: Scalar, t_max: Scalar)
        requires
            self.well_formed(),
        ensures
            self.closest(ray, t_min, t_max) matches Some((t, h)) ==> t_min.spec_le(t) && t.spec_le(
                t_max,
            ) && exists|i: int, lim: Scalar|
                0 <= i < self.objects().len() && lim.spec_le(t_max) && #[trigger] answer(
                    self.objects()[i],
                    ray,
                    t_min,
                    lim,
                ) == Some((t, h)),
            self.objects().len() == 0 ==> self.closest(ray, t_min, t_max) is None,
    {
        lemma_scan_reported(
            self.root,
            self.objects@,
            self.order@,
            0,
            self.objects@.len() as int,
            ray,
            t_min,
            t_max,
            None,
        );
        if let Some((t, h)) = self.closest(ray, t_min, t_max) {
            let (i, lim) = choose|i: int, lim: Scalar|
                0 <= i < self.objects@.len() && lim.spec_le(t_max) && #[trigger] answer(
                    self.objects@[i],
                    ray,
                    t_min,
                    lim,
                ) == Some((t, h));
            assert(answer(self.objects()[i], ray, t_min, lim) == Some((t, h)));
        }
    }

    /// Where no object's box holds a NaN, the box of the tree holds the box
    /// of every object.
    pub proof fn lemma_hull_encloses(self)
        requires
            self.well_formed(),
            forall|i: int|
                0 <= i < self.objects().len() ==> (#[trigger] self.objects()[i].bounds_of())
                    .is_numeric(),
        ensures
            self.hull().is_numeric(),
            forall|i: int|
                0 <= i < self.objects().len() ==> self.hull().encloses(
                    #[trigger] self.objects()[i].bounds_of(),
                ),
            self.objects().len() > 0 ==> forall|around: BoundingBox|
                (forall|i: int|
                    0 <= i < self.objects().len() ==> around.encloses(
                        #[trigger] self.objects()[i].bounds_of(),
                    )) ==> #[trigger] around.encloses(self.hull()),
    {
        let boxes = boxes_of(self.objects@);
        let n = self.objects@.len() as int;
        assert forall|i: int| 0 <= i < boxes.len() implies (#[trigger] boxes[i]).is_numeric() by {
            assert(self.objects()[i].bounds_of().is_numeric());
        }
        lemma_node_encloses(self.root, self.order@, boxes, 0, n);
        assert forall|i: int| 0 <= i < n implies self.hull().encloses(
            #[trigger] self.objects()[i].bounds_of(),
        ) by {
            assert(placed(self.order@, i));
            let k = choose|k: int| 0 <= k < self.order@.len() && #[trigger] self.order@[k] == i;
            assert(self.root.bounds().encloses(boxes[self.order@[k] as int]));
        }
        if n > 0 {
            assert forall|around: BoundingBox|
                (forall|i: int|
                    0 <= i < self.objects().len() ==> around.encloses(
                        #[trigger] self.objects()[i].bounds_of(),
                    )) implies #[trigger] around.encloses(self.hull()) by {
                assert forall|k: int| 0 <= k < n implies around.encloses(
                    #[trigger] boxes[self.order@[k] as int],
                ) by {
                    let i = self.order@[k] as int;
                    assert(around.encloses(self.objects()[i].bounds_of()));
                }
            }
        }
    }

    /// The box of a tree over no object is the box at the origin.
    pub proof fn lemma_empty_hull(self)
        requires
            self.well_formed(),
            self.objects().len() == 0,
        ensures
            self.hull() == BoundingBox::spec_zero(),
    {
        lemma_node_span(self.root, self.order@, boxes_of(self.objects@), 0, 0);
    }

    /// The tree finds what testing every object by itself finds: where the
    /// objects answer consistently and are struck only inside their boxes,
    /// the hit that the tree reports is the answer of one of the objects
    /// over the whole range, and no object answers with a smaller
    /// parameter.
    pub proof fn lemma_closest_hit(self, ray: Ray, t_min: Scalar, t_max: Scalar)
        requires
            self.well_formed(),
            forall|i: int|
                0 <= i < self.objects().len() ==> (#[trigger] self.objects()[i].bounds_of())
                    .is_numeric(),
            narrowing_consistent(self.objects(), ray, t_min, t_max),
            pruning_sound(self.objects(), ray, t_min),
        ensures
            self.closest(ray, t_min, t_max) matches Some(found) ==> exists|i: int|
                0 <= i < self.objects().len() && #[trigger] answer(
                    self.objects()[i],
                    ray,
                    t_min,
                    t_max,
                ) == Some(found),
            forall|i: int|
                0 <= i < self.objects().len() ==> beats(
                    self.closest(ray, t_min, t_max),
                    #[trigger] answer(self.objects()[i], ray, t_min, t_max),
                ),
    {
        let n = self.objects@.len() as int;
        let found = self.closest(ray, t_min, t_max);
        lemma_scan_closest(self.root, self.objects@, self.order@, 0, n, ray, t_min, t_max, None);
        assert forall|i: int| 0 <= i < n implies beats(
            found,
            #[trigger] answer(self.objects()[i], ray, t_min, t_max),
        ) by {
            assert(placed(self.order@, i));
        }
    }
}

/// A tree is itself an object that a ray can be tested against, so that a
/// mesh can stand among the objects of a larger tree.
impl<T: Hittable> Hittable for Bvh<T> {
    open spec fn bounds_of(&self) -> BoundingBox {
        self.hull()
    }

    open spec fn hit_of(&self, ray: Ray, t_min: Scalar, t_max: Scalar) -> Option<Hit> {
        self.closest(ray, t_min, t_max)
    }

    open spec fn slabs_of(ray: Ray, bounds: BoundingBox) -> Slabs {
        T::slabs_of(ray, bounds)
    }

    fn bounds(&self) -> (b: BoundingBox) {
        Bvh::bounds(self)
    }

    fn hit(&self, ray: &Ray, t_min: Scalar, t_max: Scalar) -> (r: Option<Hit>) {
        self.ray_hit(ray, t_min, t_max)
    }

    fn slabs(ray: &Ray, bounds: &BoundingBox) -> (s: Slabs) {
        T::slabs(ray, bounds)
    }
}

} // verus!
