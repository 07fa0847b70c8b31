//! The cell structure of a uniform grid index over boxes and circles.
//!
//! The grid divides the indexed area into `x_cell_count * y_cell_count` cells. Each element
//! (a box or a circle) is registered in every cell that its cell range covers, under a number
//! that counts the elements of its kind in insertion order. A query over a cell range visits
//! the covered cells column by column (x outer, y inner), and in each cell the boxes before the
//! circles, each in insertion order, and reports every element the first time it is met.
use vstd::prelude::*;
use std::collections::HashSet;
use crate::euclid::Point2D;

verus! {

broadcast use vstd::std_specs::hash::group_hash_axioms;

#[derive(Default, Clone, Copy, Debug, PartialEq, Eq, Structural)]
pub struct Circle<T> {
    pub center: Point2D<T>,
    pub radius: T,
}

impl<T> Circle<T> {
    pub fn new(center: Point2D<T>, radius: T) -> (r: Circle<T>)
        ensures
            r.center == center,
            r.radius == radius,
    {
        Self { center, radius }
    }
}

/// The cells `x1..=x2` by `y1..=y2`; empty when `x1 > x2` or `y1 > y2`.
#[derive(Clone, Copy, Debug, PartialEq, Eq, Structural)]
pub struct CellRange {
    pub x1: usize,
    pub y1: usize,
    pub x2: usize,
    pub y2: usize,
}

/// An element of the index: the number of a box or of a circle.
#[derive(Clone, Copy, Debug, PartialEq, Eq, Structural)]
pub enum GridEntry {
    BoxEntry(u32),
    CircleEntry(u32),
}

/// The range covers the cell at column `x` and row `y`.
pub open spec fn covers(r: CellRange, x: int, y: int) -> bool {
    r.x1 <= x <= r.x2 && r.y1 <= y <= r.y2
}

/// The numbers, in increasing order, of those of the first `n` elements whose range covers
/// the cell `(x, y)`.
pub open spec fn cell_members(ranges: Seq<CellRange>, n: nat, x: int, y: int) -> Seq<u32>
    decreases n,
{
    if n == 0 {
        Seq::empty()
    } else {
        let prev = cell_members(ranges, (n - 1) as nat, x, y);
        if covers(ranges[n - 1], x, y) {
            prev.push((n - 1) as u32)
        } else {
            prev
        }
    }
}

/// Keeps the first occurrence of each entry, in order.
pub open spec fn dedup(s: Seq<GridEntry>) -> Seq<GridEntry>
    decreases s.len(),
{
    if s.len() == 0 {
        Seq::empty()
    } else {
        let d = dedup(s.drop_last());
        if d.contains(s.last()) {
            d
        } else {
            d.push(s.last())
        }
    }
}

pub open spec fn as_boxes(s: Seq<u32>) -> Seq<GridEntry> {
    s.map_values(|u: u32| GridEntry::BoxEntry(u))
}

pub open spec fn as_circles(s: Seq<u32>) -> Seq<GridEntry> {
    s.map_values(|u: u32| GridEntry::CircleEntry(u))
}

/// The entries registered in the cell at column `x` and row `y`: its boxes, then its circles.
pub open spec fn cell_entries(
    boxes: Seq<CellRange>,
    circles: Seq<CellRange>,
    x: int,
    y: int,
) -> Seq<GridEntry> {
    as_boxes(cell_members(boxes, boxes.len(), x, y)) + as_circles(
        cell_members(circles, circles.len(), x, y),
    )
}

/// The entries of the cells of column `x` in rows `ylo..yhi`, row by row.
pub open spec fn column_entries(
    boxes: Seq<CellRange>,
    circles: Seq<CellRange>,
    x: int,
    ylo: int,
    yhi: int,
) -> Seq<GridEntry>
    decreases yhi - ylo,
{
    if yhi <= ylo {
        Seq::empty()
    } else {
        column_entries(boxes, circles, x, ylo, yhi - 1) + cell_entries(boxes, circles, x, yhi - 1)
    }
}

/// The entries of the columns `xlo..xhi`, each over the rows `ylo..yhi`, column by column.
pub open spec fn range_entries(
    boxes: Seq<CellRange>,
    circles: Seq<CellRange>,
    xlo: int,
    xhi: int,
    ylo: int,
    yhi: int,
) -> Seq<GridEntry>
    decreases xhi - xlo,
{
    if xhi <= xlo {
        Seq::empty()
    } else {
        range_entries(boxes, circles, xlo, xhi - 1, ylo, yhi) + column_entries(
            boxes,
            circles,
            xhi - 1,
            ylo,
            yhi,
        )
    }
}

/// The entries a query over the range `q` meets, in visiting order, duplicates included.
pub open spec fn visited_entries(
    boxes: Seq<CellRange>,
    circles: Seq<CellRange>,
    q: CellRange,
) -> Seq<GridEntry> {
    range_entries(boxes, circles, q.x1 as int, q.x2 + 1, q.y1 as int, q.y2 + 1)
}

/// Two cell ranges share at least one cell.
pub open spec fn ranges_meet(a: CellRange, b: CellRange) -> bool {
    exists|x: int, y: int| covers(a, x, y) && covers(b, x, y)
}

proof fn lemma_members_contains(ranges: Seq<CellRange>, n: nat, x: int, y: int, u: u32)
    requires
        n <= ranges.len(),
        n <= u32::MAX + 1,
    ensures
        cell_members(ranges, n, x, y).contains(u) <==> (u < n && covers(ranges[u as int], x, y)),
    decreases n,
{
    if n > 0 {
        lemma_members_contains(ranges, (n - 1) as nat, x, y, u);
        let prev = cell_members(ranges, (n - 1) as nat, x, y);
        if covers(ranges[n - 1], x, y) {
            lemma_seq_push_contains(prev, (n - 1) as u32, u);
        }
    }
}

proof fn lemma_seq_push_contains<A>(s: Seq<A>, e: A, v: A)
    ensures
        s.push(e).contains(v) <==> (s.contains(v) || v == e),
{
    if s.contains(v) {
        let i = choose|i: int| 0 <= i < s.len() && s[i] == v;
        assert(s.push(e)[i] == v);
    }
    if v == e {
        assert(s.push(e)[s.len() as int] == v);
    }
    if s.push(e).contains(v) && v != e {
        let i = choose|i: int| 0 <= i < s.push(e).len() && s.push(e)[i] == v;
        assert(s[i] == v);
    }
}

proof fn lemma_seq_add_contains<A>(s: Seq<A>, t: Seq<A>, v: A)
    ensures
        (s + t).contains(v) <==> (s.contains(v) || t.contains(v)),
{
    if s.contains(v) {
        let i = choose|i: int| 0 <= i < s.len() && s[i] == v;
        assert((s + t)[i] == v);
    }
    if t.contains(v) {
        let i = choose|i: int| 0 <= i < t.len() && t[i] == v;
        assert((s + t)[s.len() + i] == v);
    }
    if (s + t).contains(v) {
        let i = choose|i: int| 0 <= i < (s + t).len() && (s + t)[i] == v;
        if i < s.len() {
            assert(s[i] == v);
        } else {
            assert(t[i - s.len()] == v);
        }
    }
}

proof fn lemma_map_contains(s: Seq<u32>, u: u32, circle: bool)
    ensures
        circle ==> (as_circles(s).contains(GridEntry::CircleEntry(u)) <==> s.contains(u)),
        circle ==> !as_circles(s).contains(GridEntry::BoxEntry(u)),
        !circle ==> (as_boxes(s).contains(GridEntry::BoxEntry(u)) <==> s.contains(u)),
        !circle ==> !as_boxes(s).contains(GridEntry::CircleEntry(u)),
{
    if s.contains(u) {
        let i = choose|i: int| 0 <= i < s.len() && s[i] == u;
        assert(as_circles(s)[i] == GridEntry::CircleEntry(u));
        assert(as_boxes(s)[i] == GridEntry::BoxEntry(u));
    }
    if as_circles(s).contains(GridEntry::CircleEntry(u)) {
        let i = choose|i: int| 0 <= i < as_circles(s).len() && as_circles(s)[i] == GridEntry::CircleEntry(u);
        assert(s[i] == u);
    }
    if as_boxes(s).contains(GridEntry::BoxEntry(u)) {
        let i = choose|i: int| 0 <= i < as_boxes(s).len() && as_boxes(s)[i] == GridEntry::BoxEntry(u);
        assert(s[i] == u);
    }
    if as_circles(s).contains(GridEntry::BoxEntry(u)) {
        let i = choose|i: int| 0 <= i < as_circles(s).len() && as_circles(s)[i] == GridEntry::BoxEntry(u);
    }
    if as_boxes(s).contains(GridEntry::CircleEntry(u)) {
        let i = choose|i: int| 0 <= i < as_boxes(s).len() && as_boxes(s)[i] == GridEntry::CircleEntry(u);
    }
}

/// Whether a cell holds an entry: a box or circle entry is there exactly when that element's
/// range covers the cell.
pub open spec fn element_covers(
    boxes: Seq<CellRange>,
    circles: Seq<CellRange>,
    e: GridEntry,
    x: int,
    y: int,
) -> bool {
    match e {
        GridEntry::BoxEntry(u) => u < boxes.len() && covers(boxes[u as int], x, y),
        GridEntry::CircleEntry(u) => u < circles.len() && covers(circles[u as int], x, y),
    }
}

proof fn lemma_cell_entries_contains(
    boxes: Seq<CellRange>,
    circles: Seq<CellRange>,
    x: int,
    y: int,
    e: GridEntry,
)
    requires
        boxes.len() <= u32::MAX,
        circles.len() <= u32::MAX,
    ensures
        cell_entries(boxes, circles, x, y).contains(e) <==> element_covers(boxes, circles, e, x, y),
{
    let bm = cell_members(boxes, boxes.len(), x, y);
    let cm = cell_members(circles, circles.len(), x, y);
    lemma_seq_add_contains(as_boxes(bm), as_circles(cm), e);
    match e {
        GridEntry::BoxEntry(u) => {
            lemma_map_contains(bm, u, false);
            lemma_map_contains(cm, u, true);
            lemma_members_contains(boxes, boxes.len(), x, y, u);
        },
        GridEntry::CircleEntry(u) => {
            lemma_map_contains(bm, u, false);
            lemma_map_contains(cm, u, true);
            lemma_members_contains(circles, circles.len(), x, y, u);
        },
    }
}

proof fn lemma_column_contains(
    boxes: Seq<CellRange>,
    circles: Seq<CellRange>,
    x: int,
    ylo: int,
    yhi: int,
    e: GridEntry,
)
    requires
        boxes.len() <= u32::MAX,
        circles.len() <= u32::MAX,
    ensures
        column_entries(boxes, circles, x, ylo, yhi).contains(e) <==> exists|y: int|
            ylo <= y < yhi && element_covers(boxes, circles, e, x, y),
    decreases yhi - ylo,
{
    if yhi > ylo {
        lemma_column_contains(boxes, circles, x, ylo, yhi - 1, e);
        lemma_seq_add_contains(
            column_entries(boxes, circles, x, ylo, yhi - 1),
            cell_entries(boxes, circles, x, yhi - 1),
            e,
        );
        lemma_cell_entries_contains(boxes, circles, x, yhi - 1, e);
        if exists|y: int| ylo <= y < yhi && element_covers(boxes, circles, e, x, y) {
            let y = choose|y: int| ylo <= y < yhi && element_covers(boxes, circles, e, x, y);
            if y < yhi - 1 {
                assert(ylo <= y < yhi - 1 && element_covers(boxes, circles, e, x, y));
            }
        }
    }
}

proof fn lemma_range_contains(
    boxes: Seq<CellRange>,
    circles: Seq<CellRange>,
    xlo: int,
    xhi: int,
    ylo: int,
    yhi: int,
    e: GridEntry,
)
    requires
        boxes.len() <= u32::MAX,
        circles.len() <= u32::MAX,
    ensures
        range_entries(boxes, circles, xlo, xhi, ylo, yhi).contains(e) <==> exists|x: int, y: int|
            xlo <= x < xhi && ylo <= y < yhi && element_covers(boxes, circles, e, x, y),
    decreases xhi - xlo,
{
    if xhi > xlo {
        lemma_range_contains(boxes, circles, xlo, xhi - 1, ylo, yhi, e);
        lemma_seq_add_contains(
            range_entries(boxes, circles, xlo, xhi - 1, ylo, yhi),
            column_entries(boxes, circles, xhi - 1, ylo, yhi),
            e,
        );
        lemma_column_contains(boxes, circles, xhi - 1, ylo, yhi, e);
        if exists|x: int, y: int|
            xlo <= x < xhi && ylo <= y < yhi && element_covers(boxes, circles, e, x, y) {
            let (x, y) = choose|x: int, y: int|
                xlo <= x < xhi && ylo <= y < yhi && element_covers(boxes, circles, e, x, y);
            if x < xhi - 1 {
                assert(xlo <= x < xhi - 1 && ylo <= y < yhi && element_covers(boxes, circles, e, x, y));
            } else {
                assert(ylo <= y < yhi && element_covers(boxes, circles, e, xhi - 1, y));
            }
        }
    }
}

proof fn lemma_dedup_contains(s: Seq<GridEntry>, e: GridEntry)
    ensures
        dedup(s).contains(e) <==> s.contains(e),
        dedup(s).no_duplicates(),
    decreases s.len(),
{
    if s.len() > 0 {
        lemma_dedup_contains(s.drop_last(), e);
        lemma_dedup_contains(s.drop_last(), s.last());
        assert(s =~= s.drop_last().push(s.last()));
        lemma_seq_push_contains(s.drop_last(), s.last(), e);
        let d = dedup(s.drop_last());
        if !d.contains(s.last()) {
            lemma_seq_push_contains(d, s.last(), e);
            assert forall|i: int, j: int|
                0 <= i < d.push(s.last()).len() && 0 <= j < d.push(s.last()).len() && i != j
                implies d.push(s.last())[i] != d.push(s.last())[j] by {
                if i < d.len() && j < d.len() {
                } else if i < d.len() {
                    assert(d[i] == d.push(s.last())[i]);
                } else if j < d.len() {
                    assert(d[j] == d.push(s.last())[j]);
                }
            }
        }
    }
}

/// A query reports each element at most once, and it reports an element exactly when the
/// element's cell range and the query's cell range share a cell.
pub proof fn law_query_reports_meeting_elements(
    boxes: Seq<CellRange>,
    circles: Seq<CellRange>,
    q: CellRange,
    u: u32,
)
    requires
        boxes.len() <= u32::MAX,
        circles.len() <= u32::MAX,
    ensures
        dedup(visited_entries(boxes, circles, q)).no_duplicates(),
        dedup(visited_entries(boxes, circles, q)).contains(GridEntry::BoxEntry(u)) <==> (u
            < boxes.len() && ranges_meet(boxes[u as int], q)),
        dedup(visited_entries(boxes, circles, q)).contains(GridEntry::CircleEntry(u)) <==> (u
            < circles.len() && ranges_meet(circles[u as int], q)),
{
    let v = visited_entries(boxes, circles, q);
    lemma_dedup_contains(v, GridEntry::BoxEntry(u));
    lemma_dedup_contains(v, GridEntry::CircleEntry(u));
    lemma_range_contains(boxes, circles, q.x1 as int, q.x2 + 1, q.y1 as int, q.y2 + 1, GridEntry::BoxEntry(u));
    lemma_range_contains(boxes, circles, q.x1 as int, q.x2 + 1, q.y1 as int, q.y2 + 1, GridEntry::CircleEntry(u));
    if u < boxes.len() && ranges_meet(boxes[u as int], q) {
        let (x, y) = choose|x: int, y: int| covers(boxes[u as int], x, y) && covers(q, x, y);
        assert(element_covers(boxes, circles, GridEntry::BoxEntry(u), x, y));
    }
    if u < circles.len() && ranges_meet(circles[u as int], q) {
        let (x, y) = choose|x: int, y: int| covers(circles[u as int], x, y) && covers(q, x, y);
        assert(element_covers(boxes, circles, GridEntry::CircleEntry(u), x, y));
    }
    if v.contains(GridEntry::BoxEntry(u)) {
        let (x, y) = choose|x: int, y: int|
            q.x1 <= x < q.x2 + 1 && q.y1 <= y < q.y2 + 1 && element_covers(boxes, circles, GridEntry::BoxEntry(u), x, y);
        assert(covers(boxes[u as int], x, y) && covers(q, x, y));
    }
    if v.contains(GridEntry::CircleEntry(u)) {
        let (x, y) = choose|x: int, y: int|
            q.x1 <= x < q.x2 + 1 && q.y1 <= y < q.y2 + 1 && element_covers(boxes, circles, GridEntry::CircleEntry(u), x, y);
        assert(covers(circles[u as int], x, y) && covers(q, x, y));
    }
}

/// The cell structure of a grid index.
pub struct GridCells {
    x_cell_count: usize,
    y_cell_count: usize,
    estimated_elements_per_cell: usize,
    box_count: u32,
    circle_count: u32,
    box_cells: Vec<Vec<u32>>,
    circle_cells: Vec<Vec<u32>>,
    box_ranges: Ghost<Seq<CellRange>>,
    circle_ranges: Ghost<Seq<CellRange>>,
}

impl GridCells {
    pub closed spec fn spec_x_cell_count(&self) -> nat {
        self.x_cell_count as nat
    }

    pub closed spec fn spec_y_cell_count(&self) -> nat {
        self.y_cell_count as nat
    }

    /// The cell ranges of the boxes, in insertion order.
    pub closed spec fn box_ranges(&self) -> Seq<CellRange> {
        self.box_ranges@
    }

    /// The cell ranges of the circles, in insertion order.
    pub closed spec fn circle_ranges(&self) -> Seq<CellRange> {
        self.circle_ranges@
    }

    pub closed spec fn spec_estimated_elements_per_cell(&self) -> nat {
        self.estimated_elements_per_cell as nat
    }

    /// The range lies within the grid (each bound names an existing column or row).
    pub open spec fn in_grid(&self, r: CellRange) -> bool {
        &&& r.x1 < self.spec_x_cell_count()
        &&& r.x2 < self.spec_x_cell_count()
        &&& r.y1 < self.spec_y_cell_count()
        &&& r.y2 < self.spec_y_cell_count()
    }

    /// Every cell `c` holds exactly the members of its column `c % x` and row `c / x`.
    closed spec fn cells_consistent(
        cells: Seq<Vec<u32>>,
        ranges: Seq<CellRange>,
        xc: nat,
        yc: nat,
    ) -> bool {
        &&& cells.len() == xc * yc
        &&& forall|c: int|
            0 <= c < xc * yc ==> (#[trigger] cells[c])@ == cell_members(
                ranges,
                ranges.len(),
                c % (xc as int),
                c / (xc as int),
            )
    }

    /// Well-formedness of the cell structure.
    pub closed spec fn wf(&self) -> bool {
        &&& self.x_cell_count > 0
        &&& self.y_cell_count > 0
        &&& self.x_cell_count * self.y_cell_count <= usize::MAX
        &&& self.box_count == self.box_ranges@.len()
        &&& self.circle_count == self.circle_ranges@.len()
        &&& Self::cells_consistent(
            self.box_cells@,
            self.box_ranges@,
            self.x_cell_count as nat,
            self.y_cell_count as nat,
        )
        &&& Self::cells_consistent(
            self.circle_cells@,
            self.circle_ranges@,
            self.x_cell_count as nat,
            self.y_cell_count as nat,
        )
    }

    /// The members of the cell at column `x` and row `y` are found at index `x_count * y + x`.
    proof fn lemma_cell_index(xc: nat, yc: nat, x: int, y: int)
        requires
            0 <= x < xc,
            0 <= y < yc,
        ensures
            0 <= xc * y + x < xc * yc,
            (xc * y + x) % (xc as int) == x,
            (xc * y + x) / (xc as int) == y,
    {
        vstd::arithmetic::mul::lemma_mul_is_commutative(xc as int, y);
        vstd::arithmetic::div_mod::lemma_fundamental_div_mod_converse(
            xc * y + x,
            xc as int,
            y,
            x,
        );
        assert(xc * y + x < xc * yc) by (nonlinear_arith)
            requires
                0 <= x < xc,
                0 <= y < yc,
        ;
        assert(0 <= xc * y) by (nonlinear_arith)
            requires
                0 <= y,
        ;
    }

    /// Creates an empty grid of `x_cell_count` by `y_cell_count` cells.
    pub fn new(x_cell_count: usize, y_cell_count: usize) -> (r: Self)
        requires
            x_cell_count > 0,
            y_cell_count > 0,
            x_cell_count * y_cell_count <= usize::MAX,
        ensures
            r.wf(),
            r.spec_x_cell_count() == x_cell_count,
            r.spec_y_cell_count() == y_cell_count,
            r.box_ranges() == Seq::<CellRange>::empty(),
            r.circle_ranges() == Seq::<CellRange>::empty(),
            r.spec_estimated_elements_per_cell() == 0,
    {
        let n: usize = x_cell_count * y_cell_count;
        let mut box_cells: Vec<Vec<u32>> = Vec::new();
        let mut circle_cells: Vec<Vec<u32>> = Vec::new();
        let mut i: usize = 0;
        while i < n
            invariant
                i <= n,
                box_cells@.len() == i,
                circle_cells@.len() == i,
                forall|c: int| 0 <= c < i ==> (#[trigger] box_cells@[c])@ == Seq::<u32>::empty(),
                forall|c: int| 0 <= c < i ==> (#[trigger] circle_cells@[c])@ == Seq::<u32>::empty(),
            decreases n - i,
        {
            box_cells.push(Vec::new());
            circle_cells.push(Vec::new());
            i = i + 1;
        }
        GridCells {
            x_cell_count,
            y_cell_count,
            estimated_elements_per_cell: 0,
            box_count: 0,
            circle_count: 0,
            box_cells,
            circle_cells,
            box_ranges: Ghost(Seq::empty()),
            circle_ranges: Ghost(Seq::empty()),
        }
    }

    /// Sets the expected number of elements per cell, so that populated cells reserve room.
    pub fn reserve(&mut self, value: usize)
        requires
            old(self).wf(),
        ensures
            final(self).wf(),
            final(self).spec_estimated_elements_per_cell() == value,
            final(self).box_ranges() == old(self).box_ranges(),
            final(self).circle_ranges() == old(self).circle_ranges(),
            final(self).spec_x_cell_count() == old(self).spec_x_cell_count(),
            final(self).spec_y_cell_count() == old(self).spec_y_cell_count(),
    {
        self.estimated_elements_per_cell = value;
    }

    /// Registers a new element with cell range `r` in the cells of `cells`: afterwards the
    /// cells are consistent with `ranges.push(r)`.
    fn register(
        cells: &mut Vec<Vec<u32>>,
        ranges: Ghost<Seq<CellRange>>,
        xc: usize,
        yc: usize,
        estimated: usize,
        uid: u32,
        r: CellRange,
    )
        requires
            xc > 0,
            yc > 0,
            xc * yc <= usize::MAX,
            uid == ranges@.len(),
            r.x1 < xc,
            r.x2 < xc,
            r.y1 < yc,
            r.y2 < yc,
            Self::cells_consistent(old(cells)@, ranges@, xc as nat, yc as nat),
        ensures
            Self::cells_consistent(final(cells)@, ranges@.push(r), xc as nat, yc as nat),
    {
        let ghost old_cells = cells@;
        let ghost new_ranges = ranges@.push(r);
        let ghost n = ranges@.len();
        assert forall|x: int, y: int|
            #![trigger cell_members(new_ranges, n + 1, x, y)]
            true implies cell_members(new_ranges, n + 1, x, y) == (if covers(r, x, y) {
                cell_members(ranges@, n, x, y).push(uid)
            } else {
                cell_members(ranges@, n, x, y)
            }) by {
            Self::lemma_members_prefix(ranges@, r, n, x, y);
        }
        let mut x: usize = r.x1;
        while x <= r.x2
            invariant
                xc > 0,
                yc > 0,
                r.x1 <= x,
                x <= r.x2 + 1 || r.x2 < r.x1,
                r.x2 < xc,
                xc * yc <= usize::MAX,
                r.y1 < yc,
                r.y2 < yc,
                cells@.len() == xc * yc,
                old_cells.len() == xc * yc,
                uid == n,
                new_ranges == ranges@.push(r),
                forall|x0: int, y0: int|
                    #![trigger cell_members(new_ranges, n + 1, x0, y0)]
                    cell_members(new_ranges, n + 1, x0, y0) == (if covers(r, x0, y0) {
                        cell_members(ranges@, n, x0, y0).push(uid)
                    } else {
                        cell_members(ranges@, n, x0, y0)
                    }),
                forall|c: int|
                    0 <= c < xc * yc ==> (#[trigger] old_cells[c])@ == cell_members(
                        ranges@,
                        n,
                        c % (xc as int),
                        c / (xc as int),
                    ),
                forall|c: int|
                    0 <= c < xc * yc ==> (#[trigger] cells@[c])@ == (if covers(
                        r,
                        c % (xc as int),
                        c / (xc as int),
                    ) && c % (xc as int) < x {
                        old_cells[c]@.push(uid)
                    } else {
                        old_cells[c]@
                    }),
            decreases r.x2 + 1 - x,
        {
            let mut y: usize = r.y1;
            while y <= r.y2
                invariant
                    xc > 0,
                    yc > 0,
                    r.x1 <= x <= r.x2,
                    r.x2 < xc,
                    r.y1 <= y,
                    y <= r.y2 + 1 || r.y2 < r.y1,
                    r.y2 < yc,
                    xc * yc <= usize::MAX,
                    cells@.len() == xc * yc,
                    old_cells.len() == xc * yc,
                    forall|c: int|
                        0 <= c < xc * yc ==> (#[trigger] cells@[c])@ == (if covers(
                            r,
                            c % (xc as int),
                            c / (xc as int),
                        ) && (c % (xc as int) < x || (c % (xc as int) == x && c / (xc as int)
                            < y)) {
                            old_cells[c]@.push(uid)
                        } else {
                            old_cells[c]@
                        }),
                decreases r.y2 + 1 - y,
            {
                proof {
                    Self::lemma_cell_index(xc as nat, yc as nat, x as int, y as int);
                }
                let c: usize = xc * y + x;
                let ghost before = cells@;
                if estimated > 0 && cells[c].len() == 0 {
                    cells[c].reserve(estimated);
                }
                cells[c].push(uid);
                proof {
                    assert forall|d: int| 0 <= d < xc * yc implies (#[trigger] cells@[d])@ == (if covers(
                        r,
                        d % (xc as int),
                        d / (xc as int),
                    ) && (d % (xc as int) < x || (d % (xc as int) == x && d / (xc as int) < y
                        + 1)) {
                        old_cells[d]@.push(uid)
                    } else {
                        old_cells[d]@
                    }) by {
                        if d != c {
                            assert(cells@[d] == before[d]);
                            if d % (xc as int) == x && d / (xc as int) == y {
                                vstd::arithmetic::div_mod::lemma_fundamental_div_mod(
                                    d,
                                    xc as int,
                                );
                                assert(d == xc * y + x);
                            }
                        }
                    }
                }
                y = y + 1;
            }
            proof {
                assert forall|c: int| 0 <= c < xc * yc implies (#[trigger] cells@[c])@ == (if covers(
                    r,
                    c % (xc as int),
                    c / (xc as int),
                ) && c % (xc as int) < x + 1 {
                    old_cells[c]@.push(uid)
                } else {
                    old_cells[c]@
                }) by {
                    let cx = c % (xc as int);
                    let cy = c / (xc as int);
                    if covers(r, cx, cy) && cx == x {
                        assert(cy < y);
                    }
                }
            }
            x = x + 1;
        }
        proof {
            assert forall|c: int| 0 <= c < xc * yc implies (#[trigger] cells@[c])@ == cell_members(
                new_ranges,
                new_ranges.len(),
                c % (xc as int),
                c / (xc as int),
            ) by {
                assert(new_ranges.len() == n + 1);
                let cx = c % (xc as int);
                let cy = c / (xc as int);
                if covers(r, cx, cy) {
                    assert(cx < x);
                }
                assert(cell_members(new_ranges, n + 1, cx, cy) == (if covers(r, cx, cy) {
                    cell_members(ranges@, n, cx, cy).push(uid)
                } else {
                    cell_members(ranges@, n, cx, cy)
                }));
            }
        }
    }

    /// Adding a range after the first `n` ones extends each covered cell by `n`.
    proof fn lemma_members_prefix(ranges: Seq<CellRange>, r: CellRange, n: nat, x: int, y: int)
        requires
            n == ranges.len(),
        ensures
            cell_members(ranges.push(r), n + 1, x, y) == (if covers(r, x, y) {
                cell_members(ranges, n, x, y).push(n as u32)
            } else {
                cell_members(ranges, n, x, y)
            }),
    {
        Self::lemma_members_same_prefix(ranges, ranges.push(r), n, x, y);
    }

    /// The members among the first `n` ranges only depend on those ranges.
    proof fn lemma_members_same_prefix(a: Seq<CellRange>, b: Seq<CellRange>, n: nat, x: int, y: int)
        requires
            n <= a.len(),
            n <= b.len(),
            forall|i: int| 0 <= i < n ==> a[i] == b[i],
        ensures
            cell_members(a, n, x, y) == cell_members(b, n, x, y),
        decreases n,
    {
        if n > 0 {
            Self::lemma_members_same_prefix(a, b, (n - 1) as nat, x, y);
        }
    }

    /// Inserts a box covering the cell range `r`; returns the box's number.
    ///
    /// Fewer than `u32::MAX` boxes may have been inserted before.
    pub fn insert_box(&mut self, r: CellRange) -> (uid: u32)
        requires
            old(self).wf(),
            old(self).in_grid(r),
            old(self).box_ranges().len() < u32::MAX,
        ensures
            final(self).wf(),
            uid == old(self).box_ranges().len(),
            final(self).box_ranges() == old(self).box_ranges().push(r),
            final(self).circle_ranges() == old(self).circle_ranges(),
            final(self).spec_x_cell_count() == old(self).spec_x_cell_count(),
            final(self).spec_y_cell_count() == old(self).spec_y_cell_count(),
            final(self).spec_estimated_elements_per_cell()
                == old(self).spec_estimated_elements_per_cell(),
    {
        let uid = self.box_count;
        Self::register(
            &mut self.box_cells,
            self.box_ranges,
            self.x_cell_count,
            self.y_cell_count,
            self.estimated_elements_per_cell,
            uid,
            r,
        );
        self.box_ranges = Ghost(self.box_ranges@.push(r));
        self.box_count = uid + 1;
        uid
    }

    /// Inserts a circle whose bounding box covers the cell range `r`; returns its number.
    ///
    /// Fewer than `u32::MAX` circles may have been inserted before.
    pub fn insert_circle(&mut self, r: CellRange) -> (uid: u32)
        requires
            old(self).wf(),
            old(self).in_grid(r),
            old(self).circle_ranges().len() < u32::MAX,
        ensures
            final(self).wf(),
            uid == old(self).circle_ranges().len(),
            final(self).circle_ranges() == old(self).circle_ranges().push(r),
            final(self).box_ranges() == old(self).box_ranges(),
            final(self).spec_x_cell_count() == old(self).spec_x_cell_count(),
            final(self).spec_y_cell_count() == old(self).spec_y_cell_count(),
            final(self).spec_estimated_elements_per_cell()
                == old(self).spec_estimated_elements_per_cell(),
    {
        let uid = self.circle_count;
        Self::register(
            &mut self.circle_cells,
            self.circle_ranges,
            self.x_cell_count,
            self.y_cell_count,
            self.estimated_elements_per_cell,
            uid,
            r,
        );
        self.circle_ranges = Ghost(self.circle_ranges@.push(r));
        self.circle_count = uid + 1;
        uid
    }
    proof fn lemma_push_contains(s: Seq<GridEntry>, e: GridEntry, v: GridEntry)
        ensures
            s.push(e).contains(v) <==> (s.contains(v) || v == e),
    {
        if s.contains(v) {
            let i = choose|i: int| 0 <= i < s.len() && s[i] == v;
            assert(s.push(e)[i] == v);
        }
        if v == e {
            assert(s.push(e)[s.len() as int] == v);
        }
        if s.push(e).contains(v) && v != e {
            let i = choose|i: int| 0 <= i < s.push(e).len() && s.push(e)[i] == v;
            assert(i < s.len());
            assert(s[i] == v);
        }
    }

    /// Appends `e` unless it was met before, keeping `seen` in step with the result.
    proof fn lemma_dedup_push(processed: Seq<GridEntry>, e: GridEntry)
        ensures
            dedup(processed.push(e)) == (if dedup(processed).contains(e) {
                dedup(processed)
            } else {
                dedup(processed).push(e)
            }),
    {
        assert(processed.push(e).drop_last() =~= processed);
    }

    /// The entries of all elements whose cell range meets one of the cells of `q`, each once,
    /// in the order in which the query meets them: the cells column by column (x outer, y inner)
    /// and, in each cell, its boxes and then its circles, each in insertion order.
    pub fn query(&self, q: CellRange) -> (r: Vec<GridEntry>)
        requires
            self.wf(),
            self.in_grid(q),
        ensures
            r@ == dedup(visited_entries(self.box_ranges(), self.circle_ranges(), q)),
    {
        let ghost bs = self.box_ranges@;
        let ghost cs = self.circle_ranges@;
        let ghost xc = self.x_cell_count as nat;
        let ghost yc = self.y_cell_count as nat;
        let mut result: Vec<GridEntry> = Vec::new();
        let mut seen_boxes: HashSet<u32> = HashSet::new();
        let mut seen_circles: HashSet<u32> = HashSet::new();
        let ghost mut processed: Seq<GridEntry> = Seq::empty();
        let mut x: usize = q.x1;
        while x <= q.x2
            invariant
                self.wf(),
                self.in_grid(q),
                bs == self.box_ranges@,
                cs == self.circle_ranges@,
                q.x1 <= x,
                x <= q.x2 + 1 || q.x2 < q.x1,
                q.x2 < q.x1 ==> x == q.x1,
                processed == range_entries(bs, cs, q.x1 as int, x as int, q.y1 as int, q.y2 + 1),
                result@ == dedup(processed),
                forall|u: u32| seen_boxes@.contains(u) <==> result@.contains(GridEntry::BoxEntry(u)),
                forall|u: u32|
                    seen_circles@.contains(u) <==> result@.contains(GridEntry::CircleEntry(u)),
            decreases q.x2 + 1 - x,
        {
            let mut y: usize = q.y1;
            while y <= q.y2
                invariant
                    self.wf(),
                    self.in_grid(q),
                    bs == self.box_ranges@,
                    cs == self.circle_ranges@,
                    q.x1 <= x <= q.x2,
                    q.y1 <= y,
                    y <= q.y2 + 1 || q.y2 < q.y1,
                    q.y2 < q.y1 ==> y == q.y1,
                    processed == range_entries(bs, cs, q.x1 as int, x as int, q.y1 as int, q.y2 + 1)
                        + column_entries(bs, cs, x as int, q.y1 as int, y as int),
                    result@ == dedup(processed),
                    forall|u: u32|
                        seen_boxes@.contains(u) <==> result@.contains(GridEntry::BoxEntry(u)),
                    forall|u: u32|
                        seen_circles@.contains(u) <==> result@.contains(GridEntry::CircleEntry(u)),
                decreases q.y2 + 1 - y,
            {
                proof {
                    Self::lemma_cell_index(
                        self.x_cell_count as nat,
                        self.y_cell_count as nat,
                        x as int,
                        y as int,
                    );
                }
                let c: usize = self.x_cell_count * y + x;
                let ghost base = processed;
                let ghost cell_boxes = self.box_cells@[c as int]@;
                let ghost cell_circles = self.circle_cells@[c as int]@;
                assert(cell_boxes == cell_members(bs, bs.len(), x as int, y as int));
                assert(cell_circles == cell_members(cs, cs.len(), x as int, y as int));
                let mut k: usize = 0;
                while k < self.box_cells[c].len()
                    invariant
                        c < self.box_cells@.len(),
                        cell_boxes == self.box_cells@[c as int]@,
                        k <= cell_boxes.len(),
                        processed == base + as_boxes(cell_boxes.subrange(0, k as int)),
                        result@ == dedup(processed),
                        forall|u: u32|
                            seen_boxes@.contains(u) <==> result@.contains(GridEntry::BoxEntry(u)),
                        forall|u: u32|
                            seen_circles@.contains(u) <==> result@.contains(
                                GridEntry::CircleEntry(u),
                            ),
                    decreases cell_boxes.len() - k,
                {
                    let uid: u32 = self.box_cells[c][k];
                    let e = GridEntry::BoxEntry(uid);
                    proof {
                        Self::lemma_dedup_push(processed, e);
                        assert(as_boxes(cell_boxes.subrange(0, k + 1)) =~= as_boxes(
                            cell_boxes.subrange(0, k as int),
                        ).push(e));
                        processed = processed.push(e);
                    }
                    if !seen_boxes.contains(&uid) {
                        let ghost before = result@;
                        seen_boxes.insert(uid);
                        result.push(e);
                        proof {
                            assert forall|v: GridEntry| #[trigger] result@.contains(v) <==> (
                            before.contains(v) || v == e) by {
                                Self::lemma_push_contains(before, e, v);
                            }
                        }
                    }
                    k = k + 1;
                }
                let ghost mid = processed;
                assert(cell_boxes.subrange(0, cell_boxes.len() as int) =~= cell_boxes);
                let mut k: usize = 0;
                while k < self.circle_cells[c].len()
                    invariant
                        c < self.circle_cells@.len(),
                        cell_circles == self.circle_cells@[c as int]@,
                        k <= cell_circles.len(),
                        processed == mid + as_circles(cell_circles.subrange(0, k as int)),
                        result@ == dedup(processed),
                        forall|u: u32|
                            seen_boxes@.contains(u) <==> result@.contains(GridEntry::BoxEntry(u)),
                        forall|u: u32|
                            seen_circles@.contains(u) <==> result@.contains(
                                GridEntry::CircleEntry(u),
                            ),
                    decreases cell_circles.len() - k,
                {
                    let uid: u32 = self.circle_cells[c][k];
                    let e = GridEntry::CircleEntry(uid);
                    proof {
                        Self::lemma_dedup_push(processed, e);
                        assert(as_circles(cell_circles.subrange(0, k + 1)) =~= as_circles(
                            cell_circles.subrange(0, k as int),
                        ).push(e));
                        processed = processed.push(e);
                    }
                    if !seen_circles.contains(&uid) {
                        let ghost before = result@;
                        seen_circles.insert(uid);
                        result.push(e);
                        proof {
                            assert forall|v: GridEntry| #[trigger] result@.contains(v) <==> (
                            before.contains(v) || v == e) by {
                                Self::lemma_push_contains(before, e, v);
                            }
                        }
                    }
                    k = k + 1;
                }
                proof {
                    assert(cell_circles.subrange(0, cell_circles.len() as int) =~= cell_circles);
                    assert(processed =~= range_entries(
                        bs,
                        cs,
                        q.x1 as int,
                        x as int,
                        q.y1 as int,
                        q.y2 + 1,
                    ) + column_entries(bs, cs, x as int, q.y1 as int, y + 1));
                }
                y = y + 1;
            }
            proof {
                assert(y == q.y2 + 1 || q.y2 < q.y1);
                assert(column_entries(bs, cs, x as int, q.y1 as int, y as int) =~= column_entries(
                    bs,
                    cs,
                    x as int,
                    q.y1 as int,
                    q.y2 + 1,
                ));
                assert(processed =~= range_entries(
                    bs,
                    cs,
                    q.x1 as int,
                    x + 1,
                    q.y1 as int,
                    q.y2 + 1,
                ));
            }
            x = x + 1;
        }
        proof {
            assert(processed =~= range_entries(bs, cs, q.x1 as int, q.x2 + 1, q.y1 as int, q.y2 + 1));
        }
        result
    }
}

} // verus!
