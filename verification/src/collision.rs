//! The geometry of collisions: hit circles, and the grid of buckets that
//! keeps a tick from comparing every missile with every player.
//!
//! The play field is cut into square buckets. A circle is filed in every
//! bucket that its bounding box touches, so two circles that overlap are
//! filed together in at least one bucket.

use crate::entity::Entity;
use vstd::arithmetic::div_mod::lemma_div_is_ordered;
use vstd::prelude::*;

verus! {

/// The side of a bucket: 512 units.
pub const BUCKET_SIZE: i64 = 5_120_000;

/// Buckets per row.
pub const BUCKETS_X: usize = 64;

/// Rows of buckets.
pub const BUCKETS_Y: usize = 32;

/// The left edge of the grid.
pub const MIN_X: i64 = -163_840_000;

/// The top edge of the grid.
pub const MIN_Y: i64 = -81_920_000;

/// The largest size of a coordinate of a circle's centre.
pub const COORD_LIMIT: i64 = 0x1000_0000_0000_0000;

/// A point of the play field, with room for a centre that was moved off a
/// position.
#[derive(Clone, Copy, Debug, PartialEq, Eq, Structural)]
pub struct Point {
    pub x: i64,
    pub y: i64,
}

/// A circle of an entity's collision shape, placed on the play field.
#[derive(Clone, Copy, Debug, PartialEq, Eq, Structural)]
pub struct HitCircle {
    pub pos: Point,
    /// The radius. Nothing keeps it from being negative; what counts is the
    /// sum of the radii of two circles.
    pub rad: i32,
    /// Circles of one layer do not collide with each other.
    pub layer: u16,
    pub ent: Entity,
}

/// Two circles that collide: the one that was looked up, then the one that
/// was found.
#[derive(Clone, Copy, Debug, PartialEq, Eq, Structural)]
pub struct Collision(pub HitCircle, pub HitCircle);

impl HitCircle {
    /// The centre is within the range that the grid computes with.
    pub open spec fn wf(self) -> bool {
        &&& -COORD_LIMIT <= self.pos.x <= COORD_LIMIT
        &&& -COORD_LIMIT <= self.pos.y <= COORD_LIMIT
    }

    /// The centres are no further apart than the two radii together: the
    /// sum of the radii is not negative, and the square of the distance is
    /// at most the square of that sum.
    pub open spec fn overlaps(self, other: HitCircle) -> bool {
        &&& self.rad + other.rad >= 0
        &&& (self.pos.x - other.pos.x) * (self.pos.x - other.pos.x) + (self.pos.y - other.pos.y)
            * (self.pos.y - other.pos.y) <= (self.rad + other.rad) * (self.rad + other.rad)
    }

    /// The circles overlap and lie on different layers.
    pub open spec fn hits(self, other: HitCircle) -> bool {
        self.layer != other.layer && self.overlaps(other)
    }

    /// Whether the circles overlap: whether the distance between the
    /// centres is at most the sum of the radii.
    pub fn overlap(self, other: HitCircle) -> (r: bool)
        requires
            self.wf(),
            other.wf(),
        ensures
            r == self.overlaps(other),
    {
        let dx: i128 = self.pos.x as i128 - other.pos.x as i128;
        let dy: i128 = self.pos.y as i128 - other.pos.y as i128;
        let reach: i128 = self.rad as i128 + other.rad as i128;
        if reach < 0 {
            return false;
        }
        assert(0 <= dx * dx <= 0x2000_0000_0000_0000 * 0x2000_0000_0000_0000) by (nonlinear_arith)
            requires
                -0x2000_0000_0000_0000 <= dx <= 0x2000_0000_0000_0000,
        ;
        assert(0 <= dy * dy <= 0x2000_0000_0000_0000 * 0x2000_0000_0000_0000) by (nonlinear_arith)
            requires
                -0x2000_0000_0000_0000 <= dy <= 0x2000_0000_0000_0000,
        ;
        assert(0 <= reach * reach <= 0x2_0000_0000 * 0x2_0000_0000) by (nonlinear_arith)
            requires
                0 <= reach <= 0x2_0000_0000,
        ;
        dx * dx + dy * dy <= reach * reach
    }
}

/// The index, among `count` buckets that start at `min`, of the bucket
/// that the coordinate `v` falls in; a coordinate off the grid falls in the
/// nearest bucket.
pub open spec fn cell(v: int, min: int, count: int) -> int {
    if v < min {
        0
    } else {
        let q = (v - min) / (BUCKET_SIZE as int);
        if q >= count {
            count - 1
        } else {
            q
        }
    }
}

/// A larger coordinate falls in the same bucket or a later one.
pub proof fn lemma_cell_monotone(a: int, b: int, min: int, count: int)
    requires
        a <= b,
        count >= 1,
    ensures
        0 <= cell(a, min, count) <= cell(b, min, count) < count,
{
    if a >= min {
        lemma_div_is_ordered(a - min, b - min, BUCKET_SIZE as int);
        lemma_div_is_ordered(0, a - min, BUCKET_SIZE as int);
    } else if b >= min {
        lemma_div_is_ordered(0, b - min, BUCKET_SIZE as int);
    }
}

pub fn cell_of(v: i64, min: i64, count: usize) -> (r: usize)
    requires
        -0x2000_0000_0000_0000 <= v <= 0x2000_0000_0000_0000,
        -0x2000_0000_0000_0000 <= min <= 0x2000_0000_0000_0000,
        1 <= count <= 0x1_0000,
    ensures
        r == cell(v as int, min as int, count as int),
        r < count,
{
    if v < min {
        0
    } else {
        let q: i64 = (v - min) / BUCKET_SIZE;
        proof {
            lemma_div_is_ordered(0, v - min, BUCKET_SIZE as int);
        }
        if q >= count as i64 {
            count - 1
        } else {
            q as usize
        }
    }
}

/// The buckets that the bounding box of a circle touches: a range of
/// columns and a range of rows, ends included.
#[derive(Clone, Copy, Debug, PartialEq, Eq, Structural)]
pub struct Span {
    pub lo_x: usize,
    pub hi_x: usize,
    pub lo_y: usize,
    pub hi_y: usize,
}

impl Span {
    pub open spec fn contains(self, bx: int, by: int) -> bool {
        self.lo_x <= bx <= self.hi_x && self.lo_y <= by <= self.hi_y
    }

    pub open spec fn wf(self) -> bool {
        self.lo_x <= self.hi_x < BUCKETS_X && self.lo_y <= self.hi_y < BUCKETS_Y
    }
}

/// The size of a radius.
pub open spec fn size(rad: i32) -> int {
    if rad < 0 {
        -rad
    } else {
        rad as int
    }
}

/// The span of the circle of radius `rad` about `pos`: the buckets that
/// the box of half-width `size(rad)` about `pos` touches.
pub open spec fn span_of(pos: Point, rad: i32) -> Span {
    Span {
        lo_x: cell(pos.x - size(rad), MIN_X as int, BUCKETS_X as int) as usize,
        hi_x: cell(pos.x + size(rad), MIN_X as int, BUCKETS_X as int) as usize,
        lo_y: cell(pos.y - size(rad), MIN_Y as int, BUCKETS_Y as int) as usize,
        hi_y: cell(pos.y + size(rad), MIN_Y as int, BUCKETS_Y as int) as usize,
    }
}

/// The span of a circle is a range of buckets of the grid, and not empty.
pub proof fn lemma_span_wf(pos: Point, rad: i32)
    ensures
        span_of(pos, rad).wf(),
{
    lemma_cell_monotone(pos.x - size(rad), pos.x + size(rad), MIN_X as int, BUCKETS_X as int);
    lemma_cell_monotone(pos.y - size(rad), pos.y + size(rad), MIN_Y as int, BUCKETS_Y as int);
}

/// Two numbers whose squares are ordered are ordered the same way, where
/// the larger is not negative.
proof fn lemma_square_order(d: int, r: int)
    requires
        d * d <= r * r,
        r >= 0,
    ensures
        -r <= d <= r,
{
    if d > r {
        assert(d * d > r * r) by (nonlinear_arith)
            requires
                d > r,
                r >= 0,
        ;
    }
    if d < -r {
        assert(d * d > r * r) by (nonlinear_arith)
            requires
                d < -r,
                r >= 0,
        ;
    }
}

/// Two circles that overlap are filed together: some bucket lies in the
/// span of both.
pub proof fn lemma_overlap_shares_bucket(a: HitCircle, b: HitCircle) -> (at: (int, int))
    requires
        a.overlaps(b),
    ensures
        span_of(a.pos, a.rad).contains(at.0, at.1),
        span_of(b.pos, b.rad).contains(at.0, at.1),
{
    let dx = a.pos.x - b.pos.x;
    let dy = a.pos.y - b.pos.y;
    let r = a.rad + b.rad;
    assert(dx * dx >= 0 && dy * dy >= 0) by (nonlinear_arith);
    lemma_square_order(dx, r);
    lemma_square_order(dy, r);
    let ra = size(a.rad);
    let rb = size(b.rad);
    let tx = if a.pos.x - ra >= b.pos.x - rb {
        a.pos.x - ra
    } else {
        b.pos.x - rb
    };
    let ty = if a.pos.y - ra >= b.pos.y - rb {
        a.pos.y - ra
    } else {
        b.pos.y - rb
    };
    let mx = MIN_X as int;
    let my = MIN_Y as int;
    let cx = BUCKETS_X as int;
    let cy = BUCKETS_Y as int;
    lemma_cell_monotone(a.pos.x - ra, tx, mx, cx);
    lemma_cell_monotone(tx, a.pos.x + ra, mx, cx);
    lemma_cell_monotone(b.pos.x - rb, tx, mx, cx);
    lemma_cell_monotone(tx, b.pos.x + rb, mx, cx);
    lemma_cell_monotone(a.pos.y - ra, ty, my, cy);
    lemma_cell_monotone(ty, a.pos.y + ra, my, cy);
    lemma_cell_monotone(b.pos.y - rb, ty, my, cy);
    lemma_cell_monotone(ty, b.pos.y + rb, my, cy);
    (cell(tx, mx, cx), cell(ty, my, cy))
}

/// The span of the circle of radius `rad` about `pos`.
pub fn span(pos: Point, rad: i32) -> (s: Span)
    requires
        -COORD_LIMIT <= pos.x <= COORD_LIMIT,
        -COORD_LIMIT <= pos.y <= COORD_LIMIT,
    ensures
        s == span_of(pos, rad),
        s.wf(),
{
    proof {
        lemma_span_wf(pos, rad);
    }
    let reach: i64 = if rad < 0 {
        -(rad as i64)
    } else {
        rad as i64
    };
    Span {
        lo_x: cell_of(pos.x - reach, MIN_X, BUCKETS_X),
        hi_x: cell_of(pos.x + reach, MIN_X, BUCKETS_X),
        lo_y: cell_of(pos.y - reach, MIN_Y, BUCKETS_Y),
        hi_y: cell_of(pos.y + reach, MIN_Y, BUCKETS_Y),
    }
}

/// `a` comes before `b` where buckets are listed row by row.
pub open spec fn row_major(a: (usize, usize), b: (usize, usize)) -> bool {
    a.1 < b.1 || (a.1 == b.1 && a.0 < b.0)
}

/// The buckets that the circle of radius `rad` about `pos` is filed in,
/// each once, row by row.
pub fn intersected_buckets(pos: Point, rad: i32) -> (r: Vec<(usize, usize)>)
    requires
        -COORD_LIMIT <= pos.x <= COORD_LIMIT,
        -COORD_LIMIT <= pos.y <= COORD_LIMIT,
    ensures
        forall|bx: usize, by: usize|
            r@.contains((bx, by)) <==> span_of(pos, rad).contains(bx as int, by as int),
        forall|i: int, j: int| 0 <= i < j < r@.len() ==> row_major(r@[i], r@[j]),
        forall|i: int, j: int| 0 <= i < j < r@.len() ==> r@[i] != r@[j],
        forall|i: int| 0 <= i < r@.len() ==> (#[trigger] r@[i]).0 < BUCKETS_X && r@[i].1 < BUCKETS_Y,
{
    let s = span(pos, rad);
    let mut out: Vec<(usize, usize)> = Vec::new();
    let mut by: usize = s.lo_y;
    while by <= s.hi_y
        invariant
            s.wf(),
            s.lo_y <= by <= s.hi_y + 1,
            forall|x: usize, y: usize|
                out@.contains((x, y)) <==> s.lo_x <= x <= s.hi_x && s.lo_y <= y < by,
            forall|i: int, j: int| 0 <= i < j < out@.len() ==> row_major(out@[i], out@[j]),
        decreases s.hi_y + 1 - by,
    {
        let mut bx: usize = s.lo_x;
        while bx <= s.hi_x
            invariant
                s.wf(),
                s.lo_y <= by <= s.hi_y,
                s.lo_x <= bx <= s.hi_x + 1,
                forall|x: usize, y: usize|
                    out@.contains((x, y)) <==> s.lo_x <= x <= s.hi_x && (s.lo_y <= y < by || (y
                        == by && x < bx)),
                forall|i: int, j: int| 0 <= i < j < out@.len() ==> row_major(out@[i], out@[j]),
            decreases s.hi_x + 1 - bx,
        {
            let ghost before = out@;
            out.push((bx, by));
            proof {
                assert forall|x: usize, y: usize|
                    out@.contains((x, y)) <==> s.lo_x <= x <= s.hi_x && (s.lo_y <= y < by || (y
                        == by && x < bx + 1)) by {
                    if before.contains((x, y)) {
                        let k = choose|k: int| 0 <= k < before.len() && before[k] == (x, y);
                        assert(out@[k] == (x, y));
                    }
                    assert(out@[before.len() as int] == (bx, by));
                }
                assert forall|i: int, j: int| 0 <= i < j < out@.len() implies row_major(
                    out@[i],
                    out@[j],
                ) by {
                    if j == before.len() {
                        let earlier = before[i];
                        assert(before.contains((earlier.0, earlier.1)));
                    }
                }
            }
            bx += 1;
        }
        by += 1;
    }
    proof {
        assert forall|i: int, j: int| 0 <= i < j < out@.len() implies out@[i] != out@[j] by {
            assert(row_major(out@[i], out@[j]));
        }
        assert forall|i: int| 0 <= i < out@.len() implies (#[trigger] out@[i]).0 < BUCKETS_X
            && out@[i].1 < BUCKETS_Y by {
            let pair = out@[i];
            assert(out@.contains((pair.0, pair.1)));
        }
    }
    out
}

/// The collisions of `hc` with the circles of `circles`, in their order.
pub open spec fn found(circles: Seq<HitCircle>, hc: HitCircle) -> Seq<Collision>
    decreases circles.len(),
{
    if circles.len() == 0 {
        Seq::empty()
    } else {
        let rest = found(circles.drop_last(), hc);
        if hc.hits(circles.last()) {
            rest.push(Collision(hc, circles.last()))
        } else {
            rest
        }
    }
}

/// A collision is found exactly for the circles that `hc` hits.
pub proof fn lemma_found(circles: Seq<HitCircle>, hc: HitCircle)
    ensures
        forall|x: Collision| #[trigger]
            found(circles, hc).contains(x) <==> x.0 == hc && circles.contains(x.1) && hc.hits(x.1),
    decreases circles.len(),
{
    if circles.len() == 0 {
        assert forall|x: Collision| #[trigger]
            found(circles, hc).contains(x) <==> x.0 == hc && circles.contains(x.1) && hc.hits(
                x.1,
            ) by {}
    } else {
        let front = circles.drop_last();
        let last = circles.last();
        let rest = found(front, hc);
        lemma_found(front, hc);
        assert forall|x: Collision| #[trigger]
            found(circles, hc).contains(x) <==> x.0 == hc && circles.contains(x.1) && hc.hits(
                x.1,
            ) by {
            let in_rest = rest.contains(x);
            if found(circles, hc).contains(x) {
                let k = choose|k: int|
                    0 <= k < found(circles, hc).len() && found(circles, hc)[k] == x;
                if k < rest.len() {
                    assert(rest[k] == x);
                    assert(in_rest);
                    let j = choose|j: int| 0 <= j < front.len() && front[j] == x.1;
                    assert(circles[j] == x.1);
                } else {
                    assert(x == Collision(hc, last));
                    assert(circles[circles.len() - 1] == last);
                }
            }
            if x.0 == hc && circles.contains(x.1) && hc.hits(x.1) {
                let j = choose|j: int| 0 <= j < circles.len() && circles[j] == x.1;
                if j < front.len() {
                    assert(front[j] == x.1);
                    assert(front.contains(x.1));
                    assert(in_rest);
                    let k = choose|k: int| 0 <= k < rest.len() && rest[k] == x;
                    assert(found(circles, hc)[k] == x);
                } else {
                    assert(x.1 == last);
                    assert(found(circles, hc)[rest.len() as int] == x);
                }
            }
        }
    }
}

/// The circles filed in one bucket of the grid.
pub struct Bucket {
    pub circles: Vec<HitCircle>,
}

impl Bucket {
    pub fn new() -> (r: Self)
        ensures
            r.circles@ == Seq::<HitCircle>::empty(),
    {
        Bucket { circles: Vec::new() }
    }

    pub fn push(&mut self, circle: HitCircle)
        ensures
            final(self).circles@ == old(self).circles@.push(circle),
    {
        self.circles.push(circle);
    }

    /// Appends to `out` the collisions of `hc` with the circles of the
    /// bucket: one for every circle on another layer that overlaps `hc`.
    pub fn collide(&self, hc: HitCircle, out: &mut Vec<Collision>)
        requires
            hc.wf(),
            forall|k: int| 0 <= k < self.circles@.len() ==> (#[trigger] self.circles@[k]).wf(),
        ensures
            final(out)@ == old(out)@ + found(self.circles@, hc),
    {
        let mut i: usize = 0;
        while i < self.circles.len()
            invariant
                i <= self.circles@.len(),
                hc.wf(),
                forall|k: int| 0 <= k < self.circles@.len() ==> (#[trigger] self.circles@[k]).wf(),
                out@ == old(out)@ + found(self.circles@.take(i as int), hc),
            decreases self.circles@.len() - i,
        {
            let c = self.circles[i];
            proof {
                assert(self.circles@.take(i + 1).drop_last() =~= self.circles@.take(i as int));
            }
            if hc.layer != c.layer && hc.overlap(c) {
                out.push(Collision(hc, c));
            }
            i += 1;
        }
        assert(self.circles@.take(i as int) =~= self.circles@);
    }
}

/// The grid of buckets for one tick.
pub struct Grid {
    buckets: Vec<Bucket>,
    filed: Ghost<Seq<HitCircle>>,
}

/// The place of the bucket `(bx, by)` in the grid's storage.
pub open spec fn slot(bx: int, by: int) -> int {
    by * (BUCKETS_X as int) + bx
}

proof fn lemma_slot(bx: int, by: int)
    requires
        0 <= bx < BUCKETS_X,
        0 <= by < BUCKETS_Y,
    ensures
        0 <= slot(bx, by) < BUCKETS_X * BUCKETS_Y,
        slot(bx, by) % (BUCKETS_X as int) == bx,
        slot(bx, by) / (BUCKETS_X as int) == by,
        BUCKETS_X * BUCKETS_Y == 2048,
{
    assert((by * 64 + bx) % 64 == bx && (by * 64 + bx) / 64 == by) by (nonlinear_arith)
        requires
            0 <= bx < 64,
            0 <= by,
    ;
}

impl Grid {
    /// The circles filed so far, in the order of filing.
    pub closed spec fn filed(&self) -> Seq<HitCircle> {
        self.filed@
    }

    /// The circles in the bucket `(bx, by)`.
    pub closed spec fn bucket_at(&self, bx: int, by: int) -> Seq<HitCircle> {
        self.buckets@[slot(bx, by)].circles@
    }

    /// Every bucket holds exactly the filed circles whose span it lies in.
    pub closed spec fn wf(&self) -> bool {
        &&& self.buckets@.len() == BUCKETS_X * BUCKETS_Y
        &&& forall|k: int| 0 <= k < self.filed@.len() ==> (#[trigger] self.filed@[k]).wf()
        &&& forall|bx: int, by: int, c: HitCircle|
            0 <= bx < BUCKETS_X && 0 <= by < BUCKETS_Y ==> (#[trigger] self.bucket_at(
                bx,
                by,
            ).contains(c) <==> self.filed@.contains(c) && span_of(c.pos, c.rad).contains(bx, by))
    }

    /// A grid with nothing filed.
    pub fn new() -> (r: Self)
        ensures
            r.wf(),
            r.filed() == Seq::<HitCircle>::empty(),
    {
        let mut buckets: Vec<Bucket> = Vec::new();
        let mut i: usize = 0;
        while i < BUCKETS_X * BUCKETS_Y
            invariant
                BUCKETS_X * BUCKETS_Y == 2048,
                i <= BUCKETS_X * BUCKETS_Y,
                buckets@.len() == i,
                forall|k: int| 0 <= k < i ==> (#[trigger] buckets@[k]).circles@.len() == 0,
            decreases BUCKETS_X * BUCKETS_Y - i,
        {
            buckets.push(Bucket::new());
            i += 1;
        }
        let r = Grid { buckets, filed: Ghost(Seq::empty()) };
        proof {
            assert forall|bx: int, by: int, c: HitCircle|
                0 <= bx < BUCKETS_X && 0 <= by < BUCKETS_Y implies (#[trigger] r.bucket_at(
                bx,
                by,
            ).contains(c) <==> r.filed@.contains(c) && span_of(c.pos, c.rad).contains(bx, by)) by {
                lemma_slot(bx, by);
            }
        }
        r
    }

    /// Files `c` in every bucket of its span.
    pub fn insert(&mut self, c: HitCircle)
        requires
            old(self).wf(),
            c.wf(),
        ensures
            final(self).wf(),
            final(self).filed() == old(self).filed().push(c),
    {
        let coords = intersected_buckets(c.pos, c.rad);
        let ghost sp = span_of(c.pos, c.rad);
        let mut i: usize = 0;
        while i < coords.len()
            invariant
                i <= coords@.len(),
                self.buckets@.len() == BUCKETS_X * BUCKETS_Y,
                self.filed@ == old(self).filed@,
                old(self).wf(),
                forall|bx: usize, by: usize|
                    coords@.contains((bx, by)) <==> sp.contains(bx as int, by as int),
                forall|k: int, l: int| 0 <= k < l < coords@.len() ==> coords@[k] != coords@[l],
                forall|k: int|
                    0 <= k < coords@.len() ==> (#[trigger] coords@[k]).0 < BUCKETS_X && coords@[k].1
                        < BUCKETS_Y,
                forall|bx: int, by: int|
                    0 <= bx < BUCKETS_X && 0 <= by < BUCKETS_Y ==> #[trigger] self.bucket_at(bx, by)
                        == (if placed(coords@, i as int, bx, by) {
                        old(self).bucket_at(bx, by).push(c)
                    } else {
                        old(self).bucket_at(bx, by)
                    }),
            decreases coords@.len() - i,
        {
            let (bx, by) = coords[i];
            let ghost before = *self;
            proof {
                lemma_slot(bx as int, by as int);
            }
            let k: usize = by * BUCKETS_X + bx;
            self.buckets[k].push(c);
            proof {
                assert forall|x: int, y: int|
                    0 <= x < BUCKETS_X && 0 <= y < BUCKETS_Y implies #[trigger] self.bucket_at(x, y)
                    == (if placed(coords@, i + 1, x, y) {
                    old(self).bucket_at(x, y).push(c)
                } else {
                    old(self).bucket_at(x, y)
                }) by {
                    lemma_slot(x, y);
                    let was = placed(coords@, i as int, x, y);
                    assert(before.bucket_at(x, y) == (if was {
                        old(self).bucket_at(x, y).push(c)
                    } else {
                        old(self).bucket_at(x, y)
                    }));
                    if x == bx && y == by {
                        assert(placed(coords@, i + 1, x, y));
                    }
                }
            }
            i += 1;
        }
        let ghost mid = *self;
        proof {
            self.filed@ = self.filed@.push(c);
        }
        proof {
            let all = old(self).filed@.push(c);
            assert forall|x: int, y: int, o: HitCircle|
                0 <= x < BUCKETS_X && 0 <= y < BUCKETS_Y implies (#[trigger] self.bucket_at(
                x,
                y,
            ).contains(o) <==> all.contains(o) && span_of(o.pos, o.rad).contains(x, y)) by {
                let old_b = old(self).bucket_at(x, y);
                let was_in = old_b.contains(o);
                let is_placed = placed(coords@, i as int, x, y);
                assert(is_placed <==> sp.contains(x, y));
                lemma_push_contains(old_b, c, o);
                lemma_push_contains(old(self).filed@, c, o);
                assert(was_in <==> old(self).filed@.contains(o) && span_of(o.pos, o.rad).contains(
                    x,
                    y,
                ));
                assert(mid.bucket_at(x, y) == (if is_placed {
                    old_b.push(c)
                } else {
                    old_b
                }));
            }
        }
    }

    /// The bucket at `coord`.
    pub fn get(&self, coord: (usize, usize)) -> (r: &Bucket)
        requires
            self.wf(),
            coord.0 < BUCKETS_X,
            coord.1 < BUCKETS_Y,
        ensures
            r.circles@ == self.bucket_at(coord.0 as int, coord.1 as int),
    {
        proof {
            lemma_slot(coord.0 as int, coord.1 as int);
        }
        &self.buckets[coord.1 * BUCKETS_X + coord.0]
    }

    /// Appends to `out` the collisions of `hc` with the filed circles: a
    /// collision with a filed circle is appended, once or more often, if and
    /// only if `hc` hits that circle.
    pub fn query(&self, hc: HitCircle, out: &mut Vec<Collision>)
        requires
            self.wf(),
            hc.wf(),
        ensures
            forall|x: Collision| #[trigger]
                final(out)@.contains(x) <==> old(out)@.contains(x) || (x.0 == hc
                    && self.filed().contains(x.1) && hc.hits(x.1)),
    {
        let coords = intersected_buckets(hc.pos, hc.rad);
        let ghost sp = span_of(hc.pos, hc.rad);
        let mut i: usize = 0;
        while i < coords.len()
            invariant
                i <= coords@.len(),
                self.wf(),
                hc.wf(),
                forall|bx: usize, by: usize|
                    coords@.contains((bx, by)) <==> sp.contains(bx as int, by as int),
                forall|k: int|
                    0 <= k < coords@.len() ==> (#[trigger] coords@[k]).0 < BUCKETS_X && coords@[k].1
                        < BUCKETS_Y,
                forall|x: Collision| #[trigger]
                    out@.contains(x) <==> old(out)@.contains(x) || (x.0 == hc && hc.hits(x.1)
                        && self.met(coords@, i as int, x.1)),
            decreases coords@.len() - i,
        {
            let coord = coords[i];
            let bucket = self.get(coord);
            let ghost before = out@;
            proof {
                assert forall|k: int| 0 <= k < bucket.circles@.len() implies (
                #[trigger] bucket.circles@[k]).wf() by {
                    let c = bucket.circles@[k];
                    assert(self.bucket_at(coord.0 as int, coord.1 as int).contains(c));
                }
            }
            bucket.collide(hc, out);
            proof {
                lemma_found(bucket.circles@, hc);
                let added = found(bucket.circles@, hc);
                assert forall|x: Collision| #[trigger]
                    out@.contains(x) <==> old(out)@.contains(x) || (x.0 == hc && hc.hits(x.1)
                        && self.met(coords@, i + 1, x.1)) by {
                    lemma_concat_contains(before, added, x);
                    let here = bucket.circles@.contains(x.1);
                    if here {
                        assert(0 <= i < i + 1 && self.bucket_at(
                            coords@[i as int].0 as int,
                            coords@[i as int].1 as int,
                        ).contains(x.1));
                    }
                }
            }
            i += 1;
        }
        proof {
            assert forall|x: Collision| #[trigger]
                out@.contains(x) <==> old(out)@.contains(x) || (x.0 == hc && self.filed().contains(
                    x.1,
                ) && hc.hits(x.1)) by {
                let c = x.1;
                if x.0 == hc && self.filed().contains(c) && hc.hits(c) {
                    let at = lemma_overlap_shares_bucket(hc, c);
                    lemma_span_wf(hc.pos, hc.rad);
                    let k = choose|k: int|
                        0 <= k < coords@.len() && coords@[k] == (at.0 as usize, at.1 as usize);
                    assert(0 <= k < i && self.bucket_at(
                        coords@[k].0 as int,
                        coords@[k].1 as int,
                    ).contains(c));
                }
            }
        }
    }

    /// `c` lies in one of the first `n` buckets of `coords`.
    pub closed spec fn met(&self, coords: Seq<(usize, usize)>, n: int, c: HitCircle) -> bool {
        exists|k: int|
            0 <= k < n && k < coords.len() && self.bucket_at(
                (#[trigger] coords[k]).0 as int,
                coords[k].1 as int,
            ).contains(c)
    }
}

/// `(bx, by)` is one of the first `n` of `coords`.
pub open spec fn placed(coords: Seq<(usize, usize)>, n: int, bx: int, by: int) -> bool {
    exists|j: int| 0 <= j < n && j < coords.len() && coords[j] == (bx as usize, by as usize)
}

/// What a sequence holds after a push.
pub proof fn lemma_push_contains<T>(s: Seq<T>, v: T, x: T)
    ensures
        s.push(v).contains(x) <==> s.contains(x) || x == v,
{
    if s.contains(x) {
        let k = choose|k: int| 0 <= k < s.len() && s[k] == x;
        assert(s.push(v)[k] == x);
    }
    assert(s.push(v)[s.len() as int] == v);
}

/// What two sequences hold when joined.
pub proof fn lemma_concat_contains<T>(s: Seq<T>, t: Seq<T>, x: T)
    ensures
        (s + t).contains(x) <==> s.contains(x) || t.contains(x),
{
    if s.contains(x) {
        let k = choose|k: int| 0 <= k < s.len() && s[k] == x;
        assert((s + t)[k] == x);
    }
    if t.contains(x) {
        let k = choose|k: int| 0 <= k < t.len() && t[k] == x;
        assert((s + t)[s.len() + k] == x);
    }
}

} // verus!
