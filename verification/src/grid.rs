//! Integer tile coordinates and the octile metric between them.

use vstd::prelude::*;

use crate::chance::shuffled;

verus! {

/// Cost of one orthogonal step between adjacent tiles.
pub const STRAIGHT_COST: i64 = 10;

/// Cost of one diagonal step between adjacent tiles.
pub const DIAGONAL_COST: i64 = 14;

/// Absolute difference of two coordinates.
pub open spec fn gap(a: int, b: int) -> int {
    if a >= b {
        a - b
    } else {
        b - a
    }
}

/// Octile distance between two coordinate pairs: diagonal steps cost 14,
/// the remaining straight steps cost 10.
pub open spec fn octile(ax: int, ay: int, bx: int, by: int) -> int {
    let dx = gap(ax, bx);
    let dy = gap(ay, by);
    if dx <= dy {
        14 * dx + 10 * (dy - dx)
    } else {
        14 * dy + 10 * (dx - dy)
    }
}

/// A tile of the discretised world.
#[derive(Debug, PartialEq, Eq, Structural, Hash, Clone, Copy, PartialOrd, Ord)]
pub struct Grid {
    pub x: i32,
    pub y: i32,
}

impl Grid {
    /// The octile distance to `other`, as a mathematical integer.
    pub open spec fn spacing(self, other: Grid) -> int {
        octile(self.x as int, self.y as int, other.x as int, other.y as int)
    }

    /// Both coordinates leave room for a step in every direction.
    pub open spec fn interior(self) -> bool {
        &&& i32::MIN < self.x < i32::MAX
        &&& i32::MIN < self.y < i32::MAX
    }

    /// The tile displaced by `(dx, dy)`.
    pub open spec fn shifted(self, dx: int, dy: int) -> Grid
        recommends
            i32::MIN <= self.x + dx <= i32::MAX,
            i32::MIN <= self.y + dy <= i32::MAX,
    {
        Grid { x: (self.x + dx) as i32, y: (self.y + dy) as i32 }
    }

    /// The eight surrounding tiles: the four orthogonal ones first (left,
    /// right, up, down), then the four diagonal ones by quadrant.
    pub open spec fn ring(self) -> Seq<Grid> {
        seq![
            self.shifted(-1, 0),
            self.shifted(1, 0),
            self.shifted(0, 1),
            self.shifted(0, -1),
            self.shifted(1, 1),
            self.shifted(-1, 1),
            self.shifted(-1, -1),
            self.shifted(1, -1),
        ]
    }

    /// `other` is one of the eight surrounding tiles.
    pub open spec fn touches(self, other: Grid) -> bool {
        &&& gap(self.x as int, other.x as int) <= 1
        &&& gap(self.y as int, other.y as int) <= 1
        &&& self != other
    }

    /// The tile with the given coordinates.
    pub fn new(x: i32, y: i32) -> (g: Grid)
        ensures
            g == (Grid { x, y }),
    {
        Grid { x, y }
    }

    /// Octile distance: a diagonal step costs 14, a straight step 10.
    pub fn distance(&self, other: Grid) -> (d: i64)
        ensures
            d == self.spacing(other),
            0 <= d <= 14 * 0xffff_ffff,
    {
        let x = axis_gap(self.x, other.x);
        let y = axis_gap(self.y, other.y);
        let diag = if x <= y {
            x
        } else {
            y
        };
        let straight = if x <= y {
            y - x
        } else {
            x - y
        };
        diag * DIAGONAL_COST + straight * STRAIGHT_COST
    }

    /// The tile one step to the left.
    pub fn left(&self) -> (g: Grid)
        requires
            self.x > i32::MIN,
        ensures
            g == self.shifted(-1, 0),
    {
        Grid::new(self.x - 1, self.y)
    }

    /// The tile one step to the right.
    pub fn right(&self) -> (g: Grid)
        requires
            self.x < i32::MAX,
        ensures
            g == self.shifted(1, 0),
    {
        Grid::new(self.x + 1, self.y)
    }

    /// The tile one step up.
    pub fn up(&self) -> (g: Grid)
        requires
            self.y < i32::MAX,
        ensures
            g == self.shifted(0, 1),
    {
        Grid::new(self.x, self.y + 1)
    }

    /// The tile one step down.
    pub fn down(&self) -> (g: Grid)
        requires
            self.y > i32::MIN,
        ensures
            g == self.shifted(0, -1),
    {
        Grid::new(self.x, self.y - 1)
    }

    /// The tile one step up and to the right.
    pub fn q1(&self) -> (g: Grid)
        requires
            self.x < i32::MAX,
            self.y < i32::MAX,
        ensures
            g == self.shifted(1, 1),
    {
        Grid::new(self.x + 1, self.y + 1)
    }

    /// The tile one step up and to the left.
    pub fn q2(&self) -> (g: Grid)
        requires
            self.x > i32::MIN,
            self.y < i32::MAX,
        ensures
            g == self.shifted(-1, 1),
    {
        Grid::new(self.x - 1, self.y + 1)
    }

    /// The tile one step down and to the left.
    pub fn q3(&self) -> (g: Grid)
        requires
            self.x > i32::MIN,
            self.y > i32::MIN,
        ensures
            g == self.shifted(-1, -1),
    {
        Grid::new(self.x - 1, self.y - 1)
    }

    /// The tile one step down and to the right.
    pub fn q4(&self) -> (g: Grid)
        requires
            self.x < i32::MAX,
            self.y > i32::MIN,
        ensures
            g == self.shifted(1, -1),
    {
        Grid::new(self.x + 1, self.y - 1)
    }

    /// The orthogonal neighbours (cost 10) and the diagonal ones (cost 14).
    pub fn neighbors_by_cost(&self) -> (pair: (Vec<Grid>, Vec<Grid>))
        requires
            self.interior(),
        ensures
            pair.0@ == self.ring().subrange(0, 4),
            pair.1@ == self.ring().subrange(4, 8),
            forall|i: int| 0 <= i < 4 ==> self.spacing(#[trigger] pair.0@[i]) == 10,
            forall|i: int| 0 <= i < 4 ==> self.spacing(#[trigger] pair.1@[i]) == 14,
    {
        let ten_cost = vec![self.left(), self.right(), self.up(), self.down()];
        let fourteen_cost = vec![self.q1(), self.q2(), self.q3(), self.q4()];
        assert(ten_cost@ =~= self.ring().subrange(0, 4));
        assert(fourteen_cost@ =~= self.ring().subrange(4, 8));
        (ten_cost, fourteen_cost)
    }

    /// All eight neighbours, orthogonal ones first.
    pub fn neighbors(&self) -> (around: Vec<Grid>)
        requires
            self.interior(),
        ensures
            around@ == self.ring(),
            forall|i: int| 0 <= i < 8 ==> self.touches(#[trigger] around@[i]),
    {
        let around = vec![
            self.left(),
            self.right(),
            self.up(),
            self.down(),
            self.q1(),
            self.q2(),
            self.q3(),
            self.q4(),
        ];
        assert(around@ =~= self.ring());
        around
    }

    /// The eight neighbours in an order drawn at random.
    pub fn random_neighbors(&self) -> (around: Vec<Grid>)
        requires
            self.interior(),
        ensures
            around@.to_multiset() == self.ring().to_multiset(),
    {
        let around = self.neighbors();
        shuffled(around)
    }
}

/// Absolute difference of two coordinates, widened so that it cannot overflow.
pub fn axis_gap(a: i32, b: i32) -> (d: i64)
    ensures
        d == gap(a as int, b as int),
        0 <= d <= 0xffff_ffff,
{
    let wide_a: i64 = a as i64;
    let wide_b: i64 = b as i64;
    if wide_a >= wide_b {
        wide_a - wide_b
    } else {
        wide_b - wide_a
    }
}

/// The four orthogonal neighbours of a coordinate pair, as a specification.
pub open spec fn cross(p: (i32, i32)) -> Seq<(i32, i32)> {
    seq![
        ((p.0 + 1) as i32, p.1),
        ((p.0 - 1) as i32, p.1),
        (p.0, (p.1 + 1) as i32),
        (p.0, (p.1 - 1) as i32),
    ]
}

/// The four orthogonal neighbours of a coordinate pair: right, left, up, down.
pub fn i32_neighbors(p: (i32, i32)) -> (around: Vec<(i32, i32)>)
    requires
        i32::MIN < p.0 < i32::MAX,
        i32::MIN < p.1 < i32::MAX,
    ensures
        around@ == cross(p),
{
    let x = p.0;
    let y = p.1;
    let around = vec![(x + 1, y), (x - 1, y), (x, y + 1), (x, y - 1)];
    assert(around@ =~= cross(p));
    around
}

/// The four orthogonal neighbours in an order drawn at random.
pub fn i32_neighbors_pair_shuffled(p: (i32, i32)) -> (around: Vec<(i32, i32)>)
    requires
        i32::MIN < p.0 < i32::MAX,
        i32::MIN < p.1 < i32::MAX,
    ensures
        around@.to_multiset() == cross(p).to_multiset(),
{
    let around = i32_neighbors(p);
    shuffled(around)
}

/// The spacing to a surrounding tile is 10 along an axis and 14 diagonally.
pub proof fn spacing_of_touching(a: Grid, b: Grid)
    requires
        a.touches(b),
    ensures
        a.spacing(b) == 10 || a.spacing(b) == 14,
        a.spacing(b) == 10 <==> (a.x == b.x || a.y == b.y),
{
}

} // verus!
