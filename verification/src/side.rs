//! The four cardinal sides of a grid cell, and position arithmetic on the
//! grid: stepping one cell in a direction and listing the ring of cells
//! around a rectangular footprint.

use vstd::prelude::*;

verus! {

/// One of the four sides of a grid cell.  `Up` points towards growing `y`,
/// `Right` towards growing `x`.
#[derive(Clone, Copy, Debug, PartialEq, Eq, Structural)]
pub enum Side {
    Up,
    Down,
    Left,
    Right,
}

impl Side {
    /// The unit offset that moves a position one cell towards this side.
    pub fn as_offset(&self) -> (r: [isize; 2])
        ensures
            r@ =~= self.spec_offset(),
            r[0] as int == self.spec_dx(),
            r[1] as int == self.spec_dy(),
    {
        match self {
            Side::Up => [0, 1],
            Side::Down => [0, -1],
            Side::Left => [-1, 0],
            Side::Right => [1, 0],
        }
    }

    /// The x part of the offset towards this side.
    pub open spec fn spec_dx(self) -> int {
        match self {
            Side::Up => 0,
            Side::Down => 0,
            Side::Left => -1,
            Side::Right => 1,
        }
    }

    /// The y part of the offset towards this side.
    pub open spec fn spec_dy(self) -> int {
        match self {
            Side::Up => 1,
            Side::Down => -1,
            Side::Left => 0,
            Side::Right => 0,
        }
    }

    /// The offset of `as_offset`, as a mathematical sequence.
    pub open spec fn spec_offset(self) -> Seq<isize> {
        match self {
            Side::Up => seq![0isize, 1isize],
            Side::Down => seq![0isize, -1isize],
            Side::Left => seq![-1isize, 0isize],
            Side::Right => seq![1isize, 0isize],
        }
    }

    /// A lower-case name for the side.
    pub fn as_str(self) -> (r: &'static str)
        ensures
            self == Side::Up ==> r@ == "up"@,
            self == Side::Down ==> r@ == "down"@,
            self == Side::Left ==> r@ == "left"@,
            self == Side::Right ==> r@ == "right"@,
    {
        match self {
            Side::Up => "up",
            Side::Down => "down",
            Side::Left => "left",
            Side::Right => "right",
        }
    }

    /// The opposite side.
    pub fn reverse(self) -> (r: Self)
        ensures
            r == self.spec_reverse(),
    {
        match self {
            Side::Up => Side::Down,
            Side::Down => Side::Up,
            Side::Left => Side::Right,
            Side::Right => Side::Left,
        }
    }

    /// What `reverse` returns.
    pub open spec fn spec_reverse(self) -> Side {
        match self {
            Side::Up => Side::Down,
            Side::Down => Side::Up,
            Side::Left => Side::Right,
            Side::Right => Side::Left,
        }
    }
}

/// Reversing a side twice gives the side back, and a side never equals its
/// own reverse.
pub proof fn lemma_reverse_involution(s: Side)
    ensures
        s.spec_reverse().spec_reverse() == s,
        s.spec_reverse() != s,
{
}

/// One value of type `T` for each of the four sides of a cell.
#[derive(Clone, Copy, Debug, PartialEq, Eq, Structural)]
pub struct PerSide<T> {
    pub up: T,
    pub down: T,
    pub left: T,
    pub right: T,
}

impl<T: Copy> PerSide<T> {
    /// A table holding `v` on every side.
    pub open spec fn splat_spec(v: T) -> PerSide<T> {
        PerSide { up: v, down: v, left: v, right: v }
    }

    /// A table holding the same value on every side.
    pub fn splat(v: T) -> (r: Self)
        ensures
            r == PerSide::<T>::splat_spec(v),
    {
        PerSide { up: v, down: v, left: v, right: v }
    }

    /// The value stored for `side`.
    pub fn get(&self, side: Side) -> (r: T)
        ensures
            r == self.spec_get(side),
    {
        match side {
            Side::Up => self.up,
            Side::Down => self.down,
            Side::Left => self.left,
            Side::Right => self.right,
        }
    }

    /// The value `get` returns for `side`.
    pub open spec fn spec_get(self, side: Side) -> T {
        match side {
            Side::Up => self.up,
            Side::Down => self.down,
            Side::Left => self.left,
            Side::Right => self.right,
        }
    }

    /// The table after storing `v` for `side`.
    pub open spec fn spec_set(self, side: Side, v: T) -> PerSide<T> {
        match side {
            Side::Up => PerSide { up: v, ..self },
            Side::Down => PerSide { down: v, ..self },
            Side::Left => PerSide { left: v, ..self },
            Side::Right => PerSide { right: v, ..self },
        }
    }

    /// Replace the value stored for `side`.
    pub fn set(&mut self, side: Side, v: T)
        ensures
            *final(self) == old(self).spec_set(side, v),
            final(self).spec_get(side) == v,
            forall|s: Side| s != side ==> final(self).spec_get(s) == old(self).spec_get(s),
    {
        match side {
            Side::Up => self.up = v,
            Side::Down => self.down = v,
            Side::Left => self.left = v,
            Side::Right => self.right = v,
        }
    }
}

/// True when `pos` moved by `offset` stays inside `usize` in both
/// coordinates.
pub open spec fn offset_in_range(pos: Seq<usize>, offset: Seq<isize>) -> bool {
    &&& 0 <= pos[0] + offset[0] <= usize::MAX
    &&& 0 <= pos[1] + offset[1] <= usize::MAX
}

/// Add a signed cell offset to an unsigned grid position.  Returns `None`
/// when either coordinate would leave the `usize` range.
pub fn combine_offset(pos: &[usize; 2], offset: &[isize; 2]) -> (r: Option<[usize; 2]>)
    ensures
        offset_in_range(pos@, offset@) <==> r is Some,
        r matches Some(p) ==> {
            &&& p[0] == pos[0] + offset[0]
            &&& p[1] == pos[1] + offset[1]
        },
{
    let x = pos[0].checked_add_signed(offset[0]);
    let y = pos[1].checked_add_signed(offset[1]);
    match (x, y) {
        (Some(nx), Some(ny)) => Some([nx, ny]),
        _ => None,
    }
}

/// The perimeter walk used by `get_adjacent`: the relative ring positions
/// around a footprint of `size`, in the fixed order the walk visits them
/// (left column bottom-up, top row left-to-right, right column top-down,
/// bottom row right-to-left), each shifted by `pos` and then pulled one cell
/// towards the origin.  Entries whose shifted coordinate would drop below
/// zero are left out.
pub open spec fn spec_adjacent(pos: Seq<usize>, size: Seq<usize>) -> Seq<Seq<int>> {
    spec_ring(size).map_values(|q: Seq<int>| seq![q[0] + pos[0] - 1, q[1] + pos[1] - 1]).filter(
        |q: Seq<int>| q[0] >= 0 && q[1] >= 0,
    )
}

/// The relative perimeter positions of a footprint of `size`, starting just
/// above the origin corner and walking around it clockwise.
pub open spec fn spec_ring(size: Seq<usize>) -> Seq<Seq<int>> {
    let w = size[0] as int;
    let h = size[1] as int;
    Seq::new(h as nat, |i: int| seq![0, i + 1]) + Seq::new(
        w as nat,
        |i: int| seq![i + 1, h + 1],
    ) + Seq::new(h as nat, |i: int| seq![w + 1, h - i]) + Seq::new(
        w as nat,
        |i: int| seq![w - i, 0],
    )
}

/// The cells bordering a rectangular footprint at `pos` of `size`: one ring
/// around it, walked in a fixed order.  Positions past the top or right of
/// any grid are not filtered here (callers bounds-check); positions that
/// would fall below zero are dropped.
pub fn get_adjacent(pos: &[usize; 2], size: &[usize; 2]) -> (r: Vec<[usize; 2]>)
    requires
        pos[0] + size[0] + 1 <= usize::MAX,
        pos[1] + size[1] + 1 <= usize::MAX,
    ensures
        r.deep_view() =~~= spec_adjacent(pos@, size@).map_values(
            |q: Seq<int>| seq![q[0] as usize, q[1] as usize],
        ),
{
    let ghost h = size@[1] as int;
    let ghost w = size@[0] as int;
    let mut positions: Vec<[usize; 2]> = Vec::new();
    let mut x: usize = 0;
    let mut y: usize = 0;

    let mut i: usize = 0;
    while i < size[1]
        invariant
            i <= size[1],
            x == 0,
            y == i,
            pos@[1] + size@[1] + 1 <= usize::MAX,
            positions.deep_view() =~~= spec_ring(size@).take(i as int).map_values(
                |q: Seq<int>| seq![q[0] as usize, q[1] as usize],
            ),
        decreases size[1] - i,
    {
        y = y + 1;
        positions.push([x, y]);
        i = i + 1;
        proof {
            let cl = |q: Seq<int>| seq![q[0] as usize, q[1] as usize];
            lemma_take_map_push(spec_ring(size@), i as int, cl);
            assert(spec_ring(size@)[i - 1] =~= seq![0int, i as int]);
            assert(cl(spec_ring(size@)[i - 1]) =~= seq![x, y]);
            assert(positions.deep_view()[i - 1] =~= seq![x, y]);
            assert(positions.deep_view() =~~= spec_ring(size@).take(i as int).map_values(cl));
        }
    }
    y = y + 1;
    let mut i: usize = 0;
    while i < size[0]
        invariant
            h == size@[1] as int,
            w == size@[0] as int,
            i <= size[0],
            x == i,
            y == size[1] + 1,
            pos@[0] + size@[0] + 1 <= usize::MAX,
            positions.deep_view() =~~= spec_ring(size@).take(h + i).map_values(
                |q: Seq<int>| seq![q[0] as usize, q[1] as usize],
            ),
        decreases size[0] - i,
    {
        x = x + 1;
        positions.push([x, y]);
        i = i + 1;
        proof {
            let cl = |q: Seq<int>| seq![q[0] as usize, q[1] as usize];
            lemma_take_map_push(spec_ring(size@), h + i, cl);
            assert(spec_ring(size@)[h + i - 1] =~= seq![i as int, h + 1]);
            assert(cl(spec_ring(size@)[h + i - 1]) =~= seq![x, y]);
            assert(positions.deep_view()[h + i - 1] =~= seq![x, y]);
            assert(positions.deep_view() =~~= spec_ring(size@).take(h + i).map_values(cl));
        }
    }
    x = x + 1;
    let mut i: usize = 0;
    while i < size[1]
        invariant
            h == size@[1] as int,
            w == size@[0] as int,
            i <= size[1],
            x == size[0] + 1,
            y == size[1] + 1 - i,
            pos@[0] + size@[0] + 1 <= usize::MAX,
            pos@[1] + size@[1] + 1 <= usize::MAX,
            positions.deep_view() =~~= spec_ring(size@).take(h + w + i).map_values(
                |q: Seq<int>| seq![q[0] as usize, q[1] as usize],
            ),
        decreases size[1] - i,
    {
        y = y - 1;
        positions.push([x, y]);
        i = i + 1;
        proof {
            let cl = |q: Seq<int>| seq![q[0] as usize, q[1] as usize];
            lemma_take_map_push(spec_ring(size@), h + w + i, cl);
            assert(spec_ring(size@)[h + w + i - 1] =~= seq![w + 1, h - i + 1]);
            assert(cl(spec_ring(size@)[h + w + i - 1]) =~= seq![x, y]);
            assert(positions.deep_view()[h + w + i - 1] =~= seq![x, y]);
            assert(positions.deep_view() =~~= spec_ring(size@).take(h + w + i).map_values(cl));
        }
    }
    y = y - 1;
    let mut i: usize = 0;
    while i < size[0]
        invariant
            h == size@[1] as int,
            w == size@[0] as int,
            i <= size[0],
            x == size[0] + 1 - i,
            y == 0,
            pos@[0] + size@[0] + 1 <= usize::MAX,
            positions.deep_view() =~~= spec_ring(size@).take(h + w + h + i).map_values(
                |q: Seq<int>| seq![q[0] as usize, q[1] as usize],
            ),
        decreases size[0] - i,
    {
        x = x - 1;
        positions.push([x, y]);
        i = i + 1;
        proof {
            let cl = |q: Seq<int>| seq![q[0] as usize, q[1] as usize];
            lemma_take_map_push(spec_ring(size@), h + w + h + i, cl);
            assert(spec_ring(size@)[h + w + h + i - 1] =~= seq![w - i + 1, 0int]);
            assert(cl(spec_ring(size@)[h + w + h + i - 1]) =~= seq![x, y]);
            assert(positions.deep_view()[h + w + h + i - 1] =~= seq![x, y]);
            assert(positions.deep_view() =~~= spec_ring(size@).take(h + w + h + i).map_values(
                cl,
            ));
        }
    }
    proof {
        assert(spec_ring(size@).take(h + w + h + w) =~= spec_ring(size@));
    }

    let mut abs_positions: Vec<[usize; 2]> = Vec::new();
    let mut j: usize = 0;
    while j < positions.len()
        invariant
            h == size@[1] as int,
            w == size@[0] as int,
            j <= positions.len(),
            pos@[0] + size@[0] + 1 <= usize::MAX,
            pos@[1] + size@[1] + 1 <= usize::MAX,
            positions.deep_view() =~~= spec_ring(size@).map_values(
                |q: Seq<int>| seq![q[0] as usize, q[1] as usize],
            ),
            forall|k: int|
                0 <= k < positions.len() ==> #[trigger] positions.deep_view()[k][0] <= size@[0] + 1
                    && positions.deep_view()[k][1] <= size@[1] + 1,
            abs_positions.deep_view() =~~= spec_adjacent_prefix(pos@, size@, j as int),
        decreases positions.len() - j,
    {
        let p = positions[j];
        let ghost cl = |q: Seq<int>| seq![q[0] as usize, q[1] as usize];
        let ghost ring = spec_ring(size@);
        proof {
            assert(positions.deep_view().len() == ring.map_values(cl).len());
            assert(j < ring.len());
            assert(positions.deep_view()[j as int] =~= p@.map_values(|u: usize| u));
            assert(p@[0] == positions.deep_view()[j as int][0]);
            assert(p@[1] == positions.deep_view()[j as int][1]);
            assert(positions.deep_view()[j as int] == ring.map_values(cl)[j as int]);
            assert(ring.map_values(cl)[j as int] == cl(ring[j as int]));
            assert(ring[j as int][0] >= 0 && ring[j as int][1] >= 0);
            assert(p@[0] == ring[j as int][0] && p@[1] == ring[j as int][1]);
        }
        let px = p[0] + pos[0];
        let py = p[1] + pos[1];
        if px >= 1 && py >= 1 {
            abs_positions.push([px - 1, py - 1]);
        }
        j = j + 1;
        proof {
            lemma_adjacent_prefix_step(pos@, size@, j as int);
            assert(ring[j - 1][0] + pos@[0] == px && ring[j - 1][1] + pos@[1] == py);
            if px >= 1 && py >= 1 {
                assert(abs_positions.deep_view().last() =~= seq![
                    (ring[j - 1][0] + pos@[0] - 1) as usize,
                    (ring[j - 1][1] + pos@[1] - 1) as usize,
                ]);
                assert(abs_positions.deep_view() =~~= spec_adjacent_prefix(pos@, size@, j as int));
            } else {
                assert(abs_positions.deep_view() =~~= spec_adjacent_prefix(pos@, size@, j as int));
            }
        }
    }
    proof {
        lemma_adjacent_prefix_full(pos@, size@);
    }
    abs_positions
}

/// The first `j` ring entries of `spec_adjacent`, shifted and filtered.
pub open spec fn spec_adjacent_prefix(pos: Seq<usize>, size: Seq<usize>, j: int) -> Seq<Seq<usize>> {
    spec_ring(size).take(j).map_values(
        |q: Seq<int>| seq![q[0] + pos[0] - 1, q[1] + pos[1] - 1],
    ).filter(|q: Seq<int>| q[0] >= 0 && q[1] >= 0).map_values(
        |q: Seq<int>| seq![q[0] as usize, q[1] as usize],
    )
}

proof fn lemma_take_map_push<A, B>(s: Seq<A>, j: int, cl: spec_fn(A) -> B)
    requires
        1 <= j <= s.len(),
    ensures
        s.take(j).map_values(cl) =~= s.take(j - 1).map_values(cl).push(cl(s[j - 1])),
{
    assert(s.take(j) =~= s.take(j - 1) + seq![s[j - 1]]);
}

proof fn lemma_filter_push<A>(s: Seq<A>, p: spec_fn(A) -> bool, x: A)
    ensures
        s.push(x).filter(p) == if p(x) {
            s.filter(p).push(x)
        } else {
            s.filter(p)
        },
    decreases s.len(),
{
    reveal(Seq::filter);
    assert(s.push(x).drop_last() =~= s);
}

proof fn lemma_adjacent_prefix_step(pos: Seq<usize>, size: Seq<usize>, j: int)
    requires
        1 <= j <= spec_ring(size).len(),
    ensures
        spec_adjacent_prefix(pos, size, j) == if spec_ring(size)[j - 1][0] + pos[0] >= 1
            && spec_ring(size)[j - 1][1] + pos[1] >= 1 {
            spec_adjacent_prefix(pos, size, j - 1).push(
                seq![
                    (spec_ring(size)[j - 1][0] + pos[0] - 1) as usize,
                    (spec_ring(size)[j - 1][1] + pos[1] - 1) as usize,
                ],
            )
        } else {
            spec_adjacent_prefix(pos, size, j - 1)
        },
{
    let ring = spec_ring(size);
    let shift = |q: Seq<int>| seq![q[0] + pos[0] - 1, q[1] + pos[1] - 1];
    let keep = |q: Seq<int>| q[0] >= 0 && q[1] >= 0;
    let narrow = |q: Seq<int>| seq![q[0] as usize, q[1] as usize];
    let prev = ring.take(j - 1).map_values(shift);
    let entry = shift(ring[j - 1]);
    assert(ring.take(j).map_values(shift) =~= prev.push(entry));
    lemma_filter_push(prev, keep, entry);
    if keep(entry) {
        assert(prev.push(entry).filter(keep).map_values(narrow) =~= prev.filter(keep).map_values(
            narrow,
        ).push(narrow(entry)));
        assert(narrow(entry) =~= seq![
            (ring[j - 1][0] + pos[0] - 1) as usize,
            (ring[j - 1][1] + pos[1] - 1) as usize,
        ]);
        assert(spec_adjacent_prefix(pos, size, j) =~~= spec_adjacent_prefix(pos, size, j - 1).push(
            seq![(ring[j - 1][0] + pos[0] - 1) as usize, (ring[j - 1][1] + pos[1] - 1) as usize],
        ));
    } else {
        assert(spec_adjacent_prefix(pos, size, j) =~~= spec_adjacent_prefix(pos, size, j - 1));
    }
}

proof fn lemma_adjacent_prefix_full(pos: Seq<usize>, size: Seq<usize>)
    ensures
        spec_adjacent_prefix(pos, size, spec_ring(size).len() as int) =~~= spec_adjacent(
            pos,
            size,
        ).map_values(|q: Seq<int>| seq![q[0] as usize, q[1] as usize]),
{
    assert(spec_ring(size).take(spec_ring(size).len() as int) =~= spec_ring(size));
}

} // verus!
