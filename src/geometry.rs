//! Rectangles in the logical desktop space and their bounding box.

use vstd::prelude::*;

verus! {

/// An axis-aligned rectangle: top-left corner and size, Y pointing down.
#[derive(Clone, Copy, Debug, PartialEq, Eq, Structural)]
pub struct Rect {
    pub x: i32,
    pub y: i32,
    pub width: u32,
    pub height: u32,
}

impl Rect {
    /// The right edge, one past the last column.
    pub open spec fn right(self) -> int {
        self.x + self.width
    }

    /// The bottom edge, one past the last row.
    pub open spec fn bottom(self) -> int {
        self.y + self.height
    }

    /// Both edges lie inside the `i32` coordinate space.
    pub open spec fn fits(self) -> bool {
        self.right() <= i32::MAX && self.bottom() <= i32::MAX
    }

    /// `other` lies inside `self`.
    pub open spec fn encloses(self, other: Rect) -> bool {
        &&& self.x <= other.x
        &&& self.y <= other.y
        &&& other.right() <= self.right()
        &&& other.bottom() <= self.bottom()
    }

    /// Whether the point `(px, py)` lies inside the rectangle.
    pub open spec fn holds_point(self, px: int, py: int) -> bool {
        self.x <= px < self.right() && self.y <= py < self.bottom()
    }
}

/// `b` is the tight bounding box of the rectangles `rs[i]` with `counted[i]`:
/// it encloses each of them and each of its four edges is an edge of one of
/// them. No rectangle counted, no bounding box.
pub open spec fn is_tight_bounds(rs: Seq<Rect>, counted: Seq<bool>, b: Rect) -> bool {
    &&& rs.len() == counted.len()
    &&& forall|i: int| 0 <= i < rs.len() && #[trigger] counted[i] ==> b.encloses(rs[i])
    &&& exists|i: int| 0 <= i < rs.len() && counted[i] && #[trigger] rs[i].x == b.x
    &&& exists|i: int| 0 <= i < rs.len() && counted[i] && #[trigger] rs[i].y == b.y
    &&& exists|i: int| 0 <= i < rs.len() && counted[i] && #[trigger] rs[i].right() == b.right()
    &&& exists|i: int| 0 <= i < rs.len() && counted[i] && #[trigger] rs[i].bottom() == b.bottom()
}

/// Some rectangle is counted.
pub open spec fn any_counted(counted: Seq<bool>) -> bool {
    exists|i: int| 0 <= i < counted.len() && #[trigger] counted[i]
}

/// The tight bounding box of the counted rectangles, or `None` when none is
/// counted.
pub fn bounding_box(rs: &Vec<Rect>, counted: &Vec<bool>) -> (r: Option<Rect>)
    requires
        rs@.len() == counted@.len(),
        forall|i: int| 0 <= i < rs@.len() && #[trigger] counted@[i] ==> rs@[i].fits(),
    ensures
        r is None <==> !any_counted(counted@),
        r matches Some(b) ==> is_tight_bounds(rs@, counted@, b),
{
    let mut found = false;
    let mut min_x: i64 = 0;
    let mut min_y: i64 = 0;
    let mut max_r: i64 = 0;
    let mut max_b: i64 = 0;
    let ghost mut wx: int = 0;
    let ghost mut wy: int = 0;
    let ghost mut wr: int = 0;
    let ghost mut wb: int = 0;
    let mut i: usize = 0;
    while i < rs.len()
        invariant
            0 <= i <= rs@.len(),
            rs@.len() == counted@.len(),
            forall|k: int| 0 <= k < rs@.len() && #[trigger] counted@[k] ==> rs@[k].fits(),
            found <==> exists|k: int| 0 <= k < i && #[trigger] counted@[k],
            found ==> {
                &&& 0 <= wx < i && counted@[wx] && rs@[wx].x == min_x
                &&& 0 <= wy < i && counted@[wy] && rs@[wy].y == min_y
                &&& 0 <= wr < i && counted@[wr] && rs@[wr].right() == max_r
                &&& 0 <= wb < i && counted@[wb] && rs@[wb].bottom() == max_b
                &&& forall|k: int|
                    0 <= k < i && #[trigger] counted@[k] ==> min_x <= rs@[k].x && min_y <= rs@[k].y
                        && rs@[k].right() <= max_r && rs@[k].bottom() <= max_b
            },
        decreases rs@.len() - i,
    {
        if counted[i] {
            let r = rs[i];
            let right = r.x as i64 + r.width as i64;
            let bottom = r.y as i64 + r.height as i64;
            if !found {
                found = true;
                min_x = r.x as i64;
                min_y = r.y as i64;
                max_r = right;
                max_b = bottom;
                proof {
                    wx = i as int;
                    wy = i as int;
                    wr = i as int;
                    wb = i as int;
                }
            } else {
                if (r.x as i64) < min_x {
                    min_x = r.x as i64;
                    proof {
                        wx = i as int;
                    }
                }
                if (r.y as i64) < min_y {
                    min_y = r.y as i64;
                    proof {
                        wy = i as int;
                    }
                }
                if right > max_r {
                    max_r = right;
                    proof {
                        wr = i as int;
                    }
                }
                if bottom > max_b {
                    max_b = bottom;
                    proof {
                        wb = i as int;
                    }
                }
            }
        }
        i = i + 1;
    }
    if !found {
        return None;
    }
    proof {
        assert(rs@[wx].x as int >= i32::MIN);
        assert(rs@[wr].fits());
        assert(rs@[wb].fits());
    }
    let b = Rect {
        x: min_x as i32,
        y: min_y as i32,
        width: (max_r - min_x) as u32,
        height: (max_b - min_y) as u32,
    };
    proof {
        assert(rs@[wx].x == b.x);
        assert(rs@[wy].y == b.y);
        assert(rs@[wr].right() == b.right());
        assert(rs@[wb].bottom() == b.bottom());
    }
    Some(b)
}

/// When exactly one rectangle is counted, its tight bounding box is that
/// rectangle.
pub proof fn lemma_tight_bounds_of_one(rs: Seq<Rect>, counted: Seq<bool>, k: int, b: Rect)
    requires
        is_tight_bounds(rs, counted, b),
        0 <= k < rs.len(),
        counted[k],
        forall|i: int| 0 <= i < rs.len() && i != k ==> !#[trigger] counted[i],
    ensures
        b == rs[k],
{
    let ix = choose|i: int| 0 <= i < rs.len() && counted[i] && #[trigger] rs[i].x == b.x;
    let iy = choose|i: int| 0 <= i < rs.len() && counted[i] && #[trigger] rs[i].y == b.y;
    let ir = choose|i: int| 0 <= i < rs.len() && counted[i] && #[trigger] rs[i].right() == b.right();
    let ib = choose|i: int| 0 <= i < rs.len() && counted[i] && #[trigger] rs[i].bottom() == b.bottom();
    assert(ix == k && iy == k && ir == k && ib == k);
}

} // verus!
