use vstd::prelude::*;

use crate::point::{round_axis, round_milli, round_range, Pos};

verus! {

/// Extent of the grid along `x` and along `z`.
pub const CHUNK: usize = 128;

/// Extent of the grid along `y`.
pub const HEIGHT: usize = 16;

/// Number of cells, `CHUNK * HEIGHT * CHUNK`.
pub const CELLS: usize = 262144;

/// `(x, y, z)` lies in `[0, CHUNK) x [0, HEIGHT) x [0, CHUNK)`.
pub open spec fn in_bounds(x: int, y: int, z: int) -> bool {
    0 <= x < 128 && 0 <= y < 16 && 0 <= z < 128
}

/// Position of cell `(x, y, z)` in the flat buffer: `x * HEIGHT * CHUNK + y * CHUNK + z`.
pub open spec fn flat(x: int, y: int, z: int) -> int {
    x * 2048 + y * 128 + z
}

/// The cell stored at flat position `i`.
pub open spec fn coords_of(i: int) -> (int, int, int) {
    (i / 2048, (i / 128) % 16, i % 128)
}

/// Every flat position holds an in-bounds cell, and maps back to itself.
pub proof fn lemma_coords_of_flat(i: int)
    requires
        0 <= i < CELLS,
    ensures
        in_bounds(coords_of(i).0, coords_of(i).1, coords_of(i).2),
        flat(coords_of(i).0, coords_of(i).1, coords_of(i).2) == i,
{
}

/// Every in-bounds cell has a flat position, from which it is recovered.
pub proof fn lemma_flat_of_coords(x: int, y: int, z: int)
    requires
        in_bounds(x, y, z),
    ensures
        0 <= flat(x, y, z) < CELLS,
        coords_of(flat(x, y, z)) == (x, y, z),
{
}

/// The cell `(x, y, z)` of a grid whose cells are `s`: absent outside the bounds.
pub open spec fn cell_of(s: Seq<bool>, x: int, y: int, z: int) -> Option<bool> {
    if in_bounds(x, y, z) {
        Some(s[flat(x, y, z)])
    } else {
        None
    }
}

/// The cell `(x, y, z)` is present and solid.
pub open spec fn solid_of(s: Seq<bool>, x: int, y: int, z: int) -> bool {
    cell_of(s, x, y, z) == Some(true)
}

/// The cells `s` after writing `v` at `(x, y, z)`; a write outside the bounds changes nothing.
pub open spec fn with_cell(s: Seq<bool>, x: int, y: int, z: int, v: bool) -> Seq<bool> {
    if in_bounds(x, y, z) {
        s.update(flat(x, y, z), v)
    } else {
        s
    }
}

/// The cell that holds the point `p`: each axis rounded to the nearest unit.
pub open spec fn index_of(p: Pos) -> (int, int, int) {
    (round_milli(p.x as int), round_milli(p.y as int), round_milli(p.z as int))
}

/// The point `(x, y, z)`, in thousandths, is not inside a solid cell: its
/// cell is empty or absent.
pub open spec fn empty_point(s: Seq<bool>, x: int, y: int, z: int) -> bool {
    !solid_of(s, round_milli(x), round_milli(y), round_milli(z))
}

/// The point `p` is not inside a solid cell: its cell is empty or absent.
pub open spec fn empty_at(s: Seq<bool>, p: Pos) -> bool {
    empty_point(s, p.x as int, p.y as int, p.z as int)
}

/// The cell of the `k`-th sample of a march from `start` by `step`.
pub open spec fn ray_point(start: Pos, step: Pos, k: int) -> (int, int, int) {
    (
        round_milli(start.x + step.x * k),
        round_milli(start.y + step.y * k),
        round_milli(start.z + step.z * k),
    )
}

/// The first solid cell among the samples `k` to `steps` of a march from
/// `start` by `step`, with its value.
pub open spec fn ray_from(s: Seq<bool>, start: Pos, step: Pos, steps: int, k: int) -> Option<
    ((int, int, int), bool),
>
    decreases steps + 1 - k,
{
    if k > steps || k < 0 {
        None
    } else {
        let c = ray_point(start, step, k);
        if solid_of(s, c.0, c.1, c.2) {
            Some((c, true))
        } else {
            ray_from(s, start, step, steps, k + 1)
        }
    }
}

/// What a march finds is a solid cell, reported as solid.
pub proof fn lemma_ray_from_solid(s: Seq<bool>, start: Pos, step: Pos, steps: int, k: int)
    ensures
        ray_from(s, start, step, steps, k) matches Some((c, v)) ==> v && solid_of(s, c.0, c.1, c.2),
    decreases steps + 1 - k,
{
    if k <= steps && k >= 0 {
        lemma_ray_from_solid(s, start, step, steps, k + 1);
    }
}

/// The cell `(x, y, z)` is solid and the cell above it is empty or absent.
pub open spec fn exposed_at(s: Seq<bool>, x: int, y: int, z: int) -> bool {
    solid_of(s, x, y, z) && !solid_of(s, x, y + 1, z)
}

/// The exposed cells among the first `n` of the flat buffer, in buffer order.
pub open spec fn exposed_upto(s: Seq<bool>, n: nat) -> Seq<(int, int, int)>
    decreases n,
{
    if n == 0 {
        Seq::empty()
    } else {
        let prev = exposed_upto(s, (n - 1) as nat);
        let c = coords_of(n - 1);
        if exposed_at(s, c.0, c.1, c.2) {
            prev.push(c)
        } else {
            prev
        }
    }
}

/// Every exposed cell of the grid, in buffer order (by `x`, then `y`, then `z`).
pub open spec fn exposed(s: Seq<bool>) -> Seq<(int, int, int)> {
    exposed_upto(s, CELLS as nat)
}

/// Widens a cell index to integers.
pub open spec fn int_cell(c: (usize, usize, usize)) -> (int, int, int) {
    (c.0 as int, c.1 as int, c.2 as int)
}

/// Reading a cell gives the value last written to it; writing one cell
/// leaves every other cell as it was.
pub proof fn lemma_get_after_set(
    s: Seq<bool>,
    x: int,
    y: int,
    z: int,
    v: bool,
    a: int,
    b: int,
    c: int,
)
    requires
        s.len() == CELLS,
    ensures
        cell_of(with_cell(s, x, y, z, v), a, b, c) == if (a, b, c) == (x, y, z) && in_bounds(
            x,
            y,
            z,
        ) {
            Some(v)
        } else {
            cell_of(s, a, b, c)
        },
{
    if in_bounds(x, y, z) && in_bounds(a, b, c) {
        lemma_flat_of_coords(x, y, z);
        lemma_flat_of_coords(a, b, c);
    }
}

/// Outside the bounds a cell is absent, and every point that maps there can
/// be entered.
pub proof fn lemma_outside_absent(s: Seq<bool>, p: Pos)
    requires
        !in_bounds(index_of(p).0, index_of(p).1, index_of(p).2),
    ensures
        cell_of(s, index_of(p).0, index_of(p).1, index_of(p).2) is None,
        empty_at(s, p),
{
}

/// The exposed list holds exactly the solid cells whose upper neighbour is
/// empty or absent.
pub proof fn lemma_exposed_members(s: Seq<bool>, x: int, y: int, z: int)
    requires
        s.len() == CELLS,
    ensures
        exposed(s).contains((x, y, z)) <==> in_bounds(x, y, z) && exposed_at(s, x, y, z),
{
    lemma_exposed_upto_members(s, CELLS as nat, x, y, z);
}

proof fn lemma_exposed_upto_members(s: Seq<bool>, n: nat, x: int, y: int, z: int)
    requires
        n <= CELLS,
    ensures
        exposed_upto(s, n).contains((x, y, z)) <==> in_bounds(x, y, z) && flat(x, y, z) < n
            && exposed_at(s, x, y, z),
    decreases n,
{
    if n > 0 {
        lemma_exposed_upto_members(s, (n - 1) as nat, x, y, z);
        lemma_coords_of_flat(n - 1);
        if in_bounds(x, y, z) {
            lemma_flat_of_coords(x, y, z);
        }
        let prev = exposed_upto(s, (n - 1) as nat);
        let c = coords_of(n - 1);
        if exposed_at(s, c.0, c.1, c.2) {
            if prev.push(c).contains((x, y, z)) {
                let i = choose|i: int| 0 <= i < prev.push(c).len() && prev.push(c)[i] == (x, y, z);
                if i < prev.len() {
                    assert(prev[i] == (x, y, z));
                }
            }
            if prev.contains((x, y, z)) {
                let i = choose|i: int| 0 <= i < prev.len() && prev[i] == (x, y, z);
                assert(prev.push(c)[i] == (x, y, z));
            }
            if (x, y, z) == c {
                assert(prev.push(c)[prev.len() as int] == c);
            }
        }
    }
}

/// Two listings of the exposed cells of the same grid are the same list.
pub proof fn lemma_positions_repeat(
    s: Seq<bool>,
    a: Seq<(usize, usize, usize)>,
    b: Seq<(usize, usize, usize)>,
)
    requires
        a.map_values(|c: (usize, usize, usize)| int_cell(c)) == exposed(s),
        b.map_values(|c: (usize, usize, usize)| int_cell(c)) == exposed(s),
    ensures
        a == b,
{
    let ma = a.map_values(|c: (usize, usize, usize)| int_cell(c));
    let mb = b.map_values(|c: (usize, usize, usize)| int_cell(c));
    assert(ma.len() == a.len());
    assert(mb.len() == b.len());
    assert forall|i: int| 0 <= i < a.len() implies a[i] == b[i] by {
        assert(ma[i] == mb[i]);
    }
    assert(a =~= b);
}

/// A march that starts inside a solid cell finds that cell at its first sample.
pub proof fn lemma_ray_starts_inside(s: Seq<bool>, start: Pos, step: Pos, steps: int)
    requires
        steps >= 0,
        solid_of(s, index_of(start).0, index_of(start).1, index_of(start).2),
    ensures
        ray_from(s, start, step, steps, 0) == Some((index_of(start), true)),
{
    assert(ray_point(start, step, 0) == index_of(start));
}

/// A march whose samples all fall in empty or absent cells finds nothing.
pub proof fn lemma_ray_misses(s: Seq<bool>, start: Pos, step: Pos, steps: int, k: int)
    requires
        0 <= k,
        forall|j: int|
            k <= j <= steps ==> !solid_of(
                s,
                #[trigger] ray_point(start, step, j).0,
                ray_point(start, step, j).1,
                ray_point(start, step, j).2,
            ),
    ensures
        ray_from(s, start, step, steps, k) is None,
    decreases steps + 1 - k,
{
    if k <= steps {
        lemma_ray_misses(s, start, step, steps, k + 1);
    }
}

/// A dense grid of `CHUNK x HEIGHT x CHUNK` cells, each solid (`true`) or empty.
///
/// The cells are stored in one buffer, cell `(x, y, z)` at `flat(x, y, z)`.
pub struct HeightChunk {
    data: Vec<bool>,
}

impl View for HeightChunk {
    type V = Seq<bool>;

    closed spec fn view(&self) -> Seq<bool> {
        self.data@
    }
}

impl HeightChunk {
    /// The buffer holds exactly one value per cell.
    pub open spec fn wf(&self) -> bool {
        self@.len() == CELLS
    }

    /// A grid with every cell set to `value`.
    pub fn value(value: bool) -> (r: Self)
        ensures
            r.wf(),
            forall|x: int, y: int, z: int|
                in_bounds(x, y, z) ==> #[trigger] cell_of(r@, x, y, z) == Some(value),
    {
        let mut data: Vec<bool> = Vec::new();
        let mut i: usize = 0;
        while i < CELLS
            invariant
                i <= CELLS,
                data@.len() == i,
                forall|j: int| 0 <= j < i ==> data@[j] == value,
            decreases CELLS - i,
        {
            data.push(value);
            i = i + 1;
        }
        let r = HeightChunk { data };
        assert forall|x: int, y: int, z: int| in_bounds(x, y, z) implies #[trigger] cell_of(
            r@,
            x,
            y,
            z,
        ) == Some(value) by {
            lemma_flat_of_coords(x, y, z);
        }
        r
    }

    /// A grid whose cell `(x, y, z)` is `f(x, y, z)`, each cell evaluated once.
    pub fn for_each<T: Fn(usize, usize, usize) -> bool>(f: T) -> (r: Self)
        requires
            forall|x: usize, y: usize, z: usize|
                in_bounds(x as int, y as int, z as int) ==> #[trigger] f.requires((x, y, z)),
        ensures
            r.wf(),
            forall|x: usize, y: usize, z: usize|
                in_bounds(x as int, y as int, z as int) ==> #[trigger] f.ensures(
                    (x, y, z),
                    r@[flat(x as int, y as int, z as int)],
                ),
    {
        let mut data: Vec<bool> = Vec::new();
        let mut i: usize = 0;
        while i < CELLS
            invariant
                i <= CELLS,
                data@.len() == i,
                forall|x: usize, y: usize, z: usize|
                    in_bounds(x as int, y as int, z as int) ==> #[trigger] f.requires((x, y, z)),
                forall|j: int|
                    0 <= j < i ==> f.ensures(
                        (
                            coords_of(j).0 as usize,
                            coords_of(j).1 as usize,
                            coords_of(j).2 as usize,
                        ),
                        #[trigger] data@[j],
                    ),
            decreases CELLS - i,
        {
            proof {
                lemma_coords_of_flat(i as int);
            }
            let x: usize = i / 2048;
            let y: usize = (i / 128) % 16;
            let z: usize = i % 128;
            let v = f(x, y, z);
            data.push(v);
            assert(data@[i as int] == v);
            i = i + 1;
        }
        let r = HeightChunk { data };
        assert forall|x: usize, y: usize, z: usize|
            in_bounds(x as int, y as int, z as int) implies #[trigger] f.ensures(
            (x, y, z),
            r@[flat(x as int, y as int, z as int)],
        ) by {
            lemma_flat_of_coords(x as int, y as int, z as int);
            let j = flat(x as int, y as int, z as int);
            assert(f.ensures(
                (coords_of(j).0 as usize, coords_of(j).1 as usize, coords_of(j).2 as usize),
                data@[j],
            ));
        }
        r
    }

    /// The cell at `c`, absent when `c` lies outside the grid.
    pub fn get(&self, c: (usize, usize, usize)) -> (r: Option<&bool>)
        requires
            self.wf(),
        ensures
            r.is_some() == in_bounds(c.0 as int, c.1 as int, c.2 as int),
            r matches Some(b) ==> cell_of(self@, c.0 as int, c.1 as int, c.2 as int) == Some(*b),
    {
        if c.0 < CHUNK && c.1 < HEIGHT && c.2 < CHUNK {
            Some(&self.data[c.0 * 2048 + c.1 * 128 + c.2])
        } else {
            None
        }
    }

    /// A mutable handle on the cell at `c`, absent when `c` lies outside the grid.
    /// Only that cell can change through it.
    pub fn get_mut(&mut self, c: (usize, usize, usize)) -> (r: Option<&mut bool>)
        requires
            old(self).wf(),
        ensures
            r.is_some() == in_bounds(c.0 as int, c.1 as int, c.2 as int),
            r matches Some(b) ==> {
                &&& cell_of(old(self)@, c.0 as int, c.1 as int, c.2 as int) == Some(*b)
                &&& final(self)@ == with_cell(old(self)@, c.0 as int, c.1 as int, c.2 as int, *final(b))
            },
            r is None ==> *final(self) == *old(self),
    {
        if c.0 < CHUNK && c.1 < HEIGHT && c.2 < CHUNK {
            Some(&mut self.data[c.0 * 2048 + c.1 * 128 + c.2])
        } else {
            None
        }
    }

    /// Writes `value` into the cell at `c`; outside the grid this does nothing.
    pub fn set(&mut self, c: (usize, usize, usize), value: bool)
        requires
            old(self).wf(),
        ensures
            final(self).wf(),
            final(self)@ == with_cell(old(self)@, c.0 as int, c.1 as int, c.2 as int, value),
            forall|x: int, y: int, z: int|
                #[trigger] cell_of(final(self)@, x, y, z) == if (x, y, z) == (
                    c.0 as int,
                    c.1 as int,
                    c.2 as int,
                ) && in_bounds(x, y, z) {
                    Some(value)
                } else {
                    cell_of(old(self)@, x, y, z)
                },
    {
        if c.0 < CHUNK && c.1 < HEIGHT && c.2 < CHUNK {
            self.data.set(c.0 * 2048 + c.1 * 128 + c.2, value);
        }
        assert forall|x: int, y: int, z: int|
            #[trigger] cell_of(self@, x, y, z) == if (x, y, z) == (
                c.0 as int,
                c.1 as int,
                c.2 as int,
            ) && in_bounds(x, y, z) {
                Some(value)
            } else {
                cell_of(old(self)@, x, y, z)
            } by {
            lemma_get_after_set(old(self)@, c.0 as int, c.1 as int, c.2 as int, value, x, y, z);
        }
    }

    /// Whether the cell at `c` is empty or absent.
    pub fn is_empty_raw(&self, c: (usize, usize, usize)) -> (r: bool)
        requires
            self.wf(),
        ensures
            r == !solid_of(self@, c.0 as int, c.1 as int, c.2 as int),
    {
        match self.get(c) {
            Some(b) => !*b,
            None => true,
        }
    }

    /// The cell at a signed index, absent outside the grid.
    fn get_signed(&self, x: i128, y: i128, z: i128) -> (r: Option<&bool>)
        requires
            self.wf(),
        ensures
            r.is_some() == in_bounds(x as int, y as int, z as int),
            r matches Some(b) ==> cell_of(self@, x as int, y as int, z as int) == Some(*b),
    {
        if 0 <= x && x < 128 && 0 <= y && y < 16 && 0 <= z && z < 128 {
            self.get((x as usize, y as usize, z as usize))
        } else {
            None
        }
    }

    /// The cell that holds the point `p`: each axis rounded to the nearest
    /// unit, half way between two units away from zero.
    pub fn to_index(p: Pos) -> (r: (i64, i64, i64))
        ensures
            (r.0 as int, r.1 as int, r.2 as int) == index_of(p),
    {
        (
            round_axis(p.x as i128) as i64,
            round_axis(p.y as i128) as i64,
            round_axis(p.z as i128) as i64,
        )
    }

    /// The cell that holds the point `p`, absent outside the grid.
    pub fn getp(&self, p: Pos) -> (r: Option<&bool>)
        requires
            self.wf(),
        ensures
            r.is_some() == in_bounds(index_of(p).0, index_of(p).1, index_of(p).2),
            r matches Some(b) ==> cell_of(self@, index_of(p).0, index_of(p).1, index_of(p).2)
                == Some(*b),
    {
        let c = Self::to_index(p);
        self.get_signed(c.0 as i128, c.1 as i128, c.2 as i128)
    }

    /// Whether the point `p` can be entered: its cell is empty, or lies
    /// outside the grid.
    pub fn is_empty(&self, p: Pos) -> (r: bool)
        requires
            self.wf(),
        ensures
            r == empty_at(self@, p),
    {
        match self.getp(p) {
            Some(b) => !*b,
            None => true,
        }
    }

    /// Whether the point `(x, y, z)`, in thousandths, can be entered.
    pub(crate) fn is_empty_wide(&self, x: i128, y: i128, z: i128) -> (r: bool)
        requires
            self.wf(),
            round_range(x as int),
            round_range(y as int),
            round_range(z as int),
        ensures
            r == empty_point(self@, x as int, y as int, z as int),
    {
        match self.get_signed(round_axis(x), round_axis(y), round_axis(z)) {
            Some(b) => !*b,
            None => true,
        }
    }

    /// Marches from `start` by `step`, sampling the points `start + k * step`
    /// for `k` from `0` through `steps`, and returns the cell of the first
    /// sample that is solid, with its value; absent when none is.
    pub fn ray(&self, start: Pos, step: Pos, steps: u32) -> (r: Option<((usize, usize, usize), bool)>)
        requires
            self.wf(),
        ensures
            r.is_some() == ray_from(self@, start, step, steps as int, 0).is_some(),
            r matches Some((c, v)) ==> ray_from(self@, start, step, steps as int, 0) == Some(
                ((c.0 as int, c.1 as int, c.2 as int), v),
            ),
    {
        let mut k: u64 = 0;
        while k <= steps as u64
            invariant
                self.wf(),
                k <= steps as u64 + 1,
                ray_from(self@, start, step, steps as int, 0) == ray_from(
                    self@,
                    start,
                    step,
                    steps as int,
                    k as int,
                ),
            decreases steps as u64 + 1 - k,
        {
            let kk = k as i128;
            assert(-0x8000_0000_0000_0000 * 0x1_0000_0000 <= (step.x as int) * (kk as int)
                <= 0x8000_0000_0000_0000 * 0x1_0000_0000) by (nonlinear_arith)
                requires
                    -0x8000_0000_0000_0000 <= step.x <= 0x8000_0000_0000_0000,
                    0 <= kk <= 0x1_0000_0000,
            ;
            assert(-0x8000_0000_0000_0000 * 0x1_0000_0000 <= (step.y as int) * (kk as int)
                <= 0x8000_0000_0000_0000 * 0x1_0000_0000) by (nonlinear_arith)
                requires
                    -0x8000_0000_0000_0000 <= step.y <= 0x8000_0000_0000_0000,
                    0 <= kk <= 0x1_0000_0000,
            ;
            assert(-0x8000_0000_0000_0000 * 0x1_0000_0000 <= (step.z as int) * (kk as int)
                <= 0x8000_0000_0000_0000 * 0x1_0000_0000) by (nonlinear_arith)
                requires
                    -0x8000_0000_0000_0000 <= step.z <= 0x8000_0000_0000_0000,
                    0 <= kk <= 0x1_0000_0000,
            ;
            let x = round_axis(start.x as i128 + step.x as i128 * kk);
            let y = round_axis(start.y as i128 + step.y as i128 * kk);
            let z = round_axis(start.z as i128 + step.z as i128 * kk);
            match self.get_signed(x, y, z) {
                Some(b) => {
                    if *b {
                        return Some(((x as usize, y as usize, z as usize), true));
                    }
                },
                None => {},
            }
            k = k + 1;
        }
        None
    }

    /// Every solid cell whose upper neighbour is empty or absent, ordered by
    /// `x`, then `y`, then `z`. Only the face on top is considered.
    pub fn positions(&self) -> (r: Vec<(usize, usize, usize)>)
        requires
            self.wf(),
        ensures
            r@.map_values(|c: (usize, usize, usize)| int_cell(c)) == exposed(self@),
    {
        let mut pos: Vec<(usize, usize, usize)> = Vec::new();
        let mut i: usize = 0;
        while i < CELLS
            invariant
                self.wf(),
                i <= CELLS,
                pos@.map_values(|c: (usize, usize, usize)| int_cell(c)) == exposed_upto(
                    self@,
                    i as nat,
                ),
            decreases CELLS - i,
        {
            proof {
                lemma_coords_of_flat(i as int);
            }
            let x: usize = i / 2048;
            let y: usize = (i / 128) % 16;
            let z: usize = i % 128;
            if self.data[i] && self.is_empty_raw((x, y + 1, z)) {
                pos.push((x, y, z));
            }
            proof {
                assert(pos@.map_values(|c: (usize, usize, usize)| int_cell(c)) =~= exposed_upto(
                    self@,
                    (i + 1) as nat,
                ));
            }
            i = i + 1;
        }
        pos
    }

    /// Digs along a march from `start` by `step` (see `ray`): the first solid
    /// cell met is emptied and returned; absent, with nothing changed, when
    /// the march meets none.
    pub fn dig(&mut self, start: Pos, step: Pos, steps: u32) -> (r: Option<(usize, usize, usize)>)
        requires
            old(self).wf(),
        ensures
            final(self).wf(),
            r.is_some() == ray_from(old(self)@, start, step, steps as int, 0).is_some(),
            r matches Some(c) ==> {
                &&& ray_from(old(self)@, start, step, steps as int, 0) == Some((int_cell(c), true))
                &&& final(self)@ == with_cell(old(self)@, c.0 as int, c.1 as int, c.2 as int, false)
            },
            r is None ==> final(self)@ == old(self)@,
    {
        match self.ray(start, step, steps) {
            Some((c, _)) => {
                proof {
                    lemma_ray_from_solid(self@, start, step, steps as int, 0);
                }
                self.set(c, false);
                Some(c)
            },
            None => None,
        }
    }
}

} // verus!
