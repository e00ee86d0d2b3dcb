use vstd::prelude::*;

verus! {

/// A rectangle of grid cells, given by the column and row indices at which
/// its corners fall. Indices past the last column or row stand for that last
/// column or row: a coordinate right of (or above) the map lands in the
/// outermost cell.
#[derive(Debug, Clone, Copy, PartialEq, Eq)]
pub struct CellRange {
    pub min_column: usize,
    pub max_column: usize,
    pub min_row: usize,
    pub max_row: usize,
}

/// The index that `raw` stands for in a grid dimension of `count` cells.
pub open spec fn clamp_index(raw: int, count: int) -> int {
    if raw < count {
        raw
    } else {
        count - 1
    }
}

/// Whether `range`, taken in a grid of `columns` by `rows` cells, holds the
/// cell in column `x` and row `y`.
pub open spec fn range_covers(range: CellRange, columns: int, rows: int, x: int, y: int) -> bool {
    &&& clamp_index(range.min_column as int, columns) <= x <= clamp_index(range.max_column as int, columns)
    &&& clamp_index(range.min_row as int, rows) <= y <= clamp_index(range.max_row as int, rows)
}

/// Whether two ranges, taken in a grid of `columns` by `rows` cells, share
/// at least one cell.
pub open spec fn ranges_overlap(a: CellRange, b: CellRange, columns: int, rows: int) -> bool {
    &&& clamp_index(a.min_column as int, columns) <= clamp_index(b.max_column as int, columns)
    &&& clamp_index(b.min_column as int, columns) <= clamp_index(a.max_column as int, columns)
    &&& clamp_index(a.min_row as int, rows) <= clamp_index(b.max_row as int, rows)
    &&& clamp_index(b.min_row as int, rows) <= clamp_index(a.max_row as int, rows)
    &&& clamp_index(a.min_column as int, columns) <= clamp_index(a.max_column as int, columns)
    &&& clamp_index(b.min_column as int, columns) <= clamp_index(b.max_column as int, columns)
    &&& clamp_index(a.min_row as int, rows) <= clamp_index(a.max_row as int, rows)
    &&& clamp_index(b.min_row as int, rows) <= clamp_index(b.max_row as int, rows)
}

/// The indices, in increasing order, of those among the first `n` walls
/// whose cell ranges hold the cell in column `x` and row `y`.
pub open spec fn covering_walls(
    ranges: Seq<CellRange>,
    n: nat,
    columns: int,
    rows: int,
    x: int,
    y: int,
) -> Seq<usize>
    decreases n,
{
    if n == 0 {
        Seq::empty()
    } else {
        let earlier = covering_walls(ranges, (n - 1) as nat, columns, rows, x, y);
        if range_covers(ranges[n - 1], columns, rows, x, y) {
            earlier.push((n - 1) as usize)
        } else {
            earlier
        }
    }
}

/// The cells of an index built over walls with the given cell ranges:
/// `cells[y][x]` lists the walls covering that cell.
pub open spec fn built_cells(ranges: Seq<CellRange>, columns: nat, rows: nat) -> Seq<Seq<Seq<usize>>> {
    Seq::new(
        rows,
        |y: int|
            Seq::new(
                columns,
                |x: int| covering_walls(ranges, ranges.len(), columns as int, rows as int, x, y),
            ),
    )
}

/// The contents of the cells `first..=last` of a row, one cell after the
/// other.
pub open spec fn row_walls(row: Seq<Seq<usize>>, first: int, last: int) -> Seq<usize>
    decreases last - first + 1,
{
    if last < first {
        Seq::empty()
    } else {
        row_walls(row, first, last - 1) + row[last]
    }
}

/// The contents of the cells of columns `first_x..=last_x` in rows
/// `first_y..=last_y`, row by row from the lowest.
pub open spec fn range_walls(
    cells: Seq<Seq<Seq<usize>>>,
    first_x: int,
    last_x: int,
    first_y: int,
    last_y: int,
) -> Seq<usize>
    decreases last_y - first_y + 1,
{
    if last_y < first_y {
        Seq::empty()
    } else {
        range_walls(cells, first_x, last_x, first_y, last_y - 1) + row_walls(cells[last_y], first_x, last_x)
    }
}

/// A uniform grid over the map whose cells list the walls that may touch
/// them. Queries visit the cells of a rectangle and report the walls listed
/// there.
#[derive(Debug)]
pub struct GridIndex {
    columns: usize,
    rows: usize,
    cells: Vec<Vec<Vec<usize>>>,
}

/// The contents of nested vectors of cells.
pub open spec fn cells_view(cells: Seq<Vec<Vec<usize>>>) -> Seq<Seq<Seq<usize>>> {
    cells.map_values(|row: Vec<Vec<usize>>| row@.map_values(|cell: Vec<usize>| cell@))
}

/// Whether nested vectors hold `rows` rows of `columns` cells each.
pub open spec fn has_shape(cells: Seq<Seq<Seq<usize>>>, columns: int, rows: int) -> bool {
    &&& cells.len() == rows
    &&& forall|y: int| 0 <= y < rows ==> (#[trigger] cells[y]).len() == columns
}

impl GridIndex {
    /// The number of columns.
    pub closed spec fn spec_columns(&self) -> nat {
        self.columns as nat
    }

    /// The number of rows.
    pub closed spec fn spec_rows(&self) -> nat {
        self.rows as nat
    }

    /// The wall lists of all cells, `cells[y][x]`.
    pub closed spec fn spec_cells(&self) -> Seq<Seq<Seq<usize>>> {
        cells_view(self.cells@)
    }

    #[verifier::type_invariant]
    closed spec fn well_formed(&self) -> bool {
        &&& self.columns >= 1
        &&& self.rows >= 1
        &&& has_shape(cells_view(self.cells@), self.columns as int, self.rows as int)
    }

    /// Builds the index over walls whose cell ranges are `ranges`, wall `i`
    /// having range `ranges[i]`, in a grid of `columns` by `rows` cells (a
    /// count of zero stands for one).
    pub fn build(columns: usize, rows: usize, ranges: &Vec<CellRange>) -> (index: GridIndex)
        ensures
            index.spec_columns() == if columns == 0 { 1 } else { columns as nat },
            index.spec_rows() == if rows == 0 { 1 } else { rows as nat },
            index.spec_cells() == built_cells(ranges@, index.spec_columns(), index.spec_rows()),
    {
        let columns = if columns == 0 { 1 } else { columns };
        let rows = if rows == 0 { 1 } else { rows };
        let mut cells: Vec<Vec<Vec<usize>>> = Vec::new();
        for y in 0..rows
            invariant
                cells@.len() == y,
                forall|j: int|
                    0 <= j < y ==> (#[trigger] cells@[j])@.len() == columns && forall|x: int|
                        0 <= x < columns ==> (#[trigger] cells@[j]@[x])@.len() == 0,
        {
            let mut row: Vec<Vec<usize>> = Vec::new();
            for x in 0..columns
                invariant
                    row@.len() == x,
                    forall|i: int| 0 <= i < x ==> (#[trigger] row@[i])@.len() == 0,
            {
                row.push(Vec::new());
            }
            cells.push(row);
        }
        let count = ranges.len();
        for i in 0..count
            invariant
                count == ranges@.len(),
                columns >= 1,
                rows >= 1,
                has_shape(cells_view(cells@), columns as int, rows as int),
                forall|x: int, y: int|
                    0 <= x < columns && 0 <= y < rows ==> #[trigger] cells_view(cells@)[y][x]
                        == covering_walls(ranges@, i as nat, columns as int, rows as int, x, y),
        {
            insert_wall(&mut cells, columns, rows, i, ranges[i]);
        }
        let index = GridIndex { columns, rows, cells };
        assert(index.spec_cells() =~~= built_cells(ranges@, columns as nat, rows as nat));
        index
    }

    /// The column index that `raw` stands for: `raw` itself, or the last
    /// column when `raw` lies past it.
    pub fn column_index(&self, raw: usize) -> (column: usize)
        ensures
            column == clamp_index(raw as int, self.spec_columns() as int),
            column < self.spec_columns(),
            raw < self.spec_columns() ==> column == raw,
            raw >= self.spec_columns() ==> column == self.spec_columns() - 1,
    {
        proof {
            use_type_invariant(self);
        }
        if raw < self.columns {
            raw
        } else {
            self.columns - 1
        }
    }

    /// The row index that `raw` stands for: `raw` itself, or the last row
    /// when `raw` lies past it.
    pub fn row_index(&self, raw: usize) -> (row: usize)
        ensures
            row == clamp_index(raw as int, self.spec_rows() as int),
            row < self.spec_rows(),
            raw < self.spec_rows() ==> row == raw,
            raw >= self.spec_rows() ==> row == self.spec_rows() - 1,
    {
        proof {
            use_type_invariant(self);
        }
        if raw < self.rows {
            raw
        } else {
            self.rows - 1
        }
    }

    /// The walls listed in the cell at `column` and `row`, or `None` when
    /// that cell lies outside the grid.
    pub fn cell_walls(&self, column: isize, row: isize) -> (walls: Option<&Vec<usize>>)
        ensures
            (0 <= column < self.spec_columns() && 0 <= row < self.spec_rows()) ==> (walls matches Some(
                list,
            ) && list@ == self.spec_cells()[row as int][column as int]),
            !(0 <= column < self.spec_columns() && 0 <= row < self.spec_rows()) ==> walls is None,
    {
        proof {
            use_type_invariant(self);
        }
        if column < 0 || row < 0 {
            return None;
        }
        let x = column as usize;
        let y = row as usize;
        if x >= self.columns || y >= self.rows {
            return None;
        }
        proof {
            assert(self.spec_cells()[y as int].len() == self.columns);
        }
        Some(&self.cells[y][x])
    }

    /// The walls listed in the cells of `range`, visiting rows from the
    /// lowest and, within a row, columns from the left; a wall appears once
    /// for each visited cell that lists it.
    pub fn walls_in(&self, range: CellRange) -> (walls: Vec<usize>)
        ensures
            walls@ == range_walls(
                self.spec_cells(),
                clamp_index(range.min_column as int, self.spec_columns() as int),
                clamp_index(range.max_column as int, self.spec_columns() as int),
                clamp_index(range.min_row as int, self.spec_rows() as int),
                clamp_index(range.max_row as int, self.spec_rows() as int),
            ),
    {
        proof {
            use_type_invariant(self);
        }
        let first_x = self.column_index(range.min_column);
        let last_x = self.column_index(range.max_column);
        let first_y = self.row_index(range.min_row);
        let last_y = self.row_index(range.max_row);
        let ghost cells = self.spec_cells();
        let mut walls: Vec<usize> = Vec::new();
        if first_y > last_y {
            return walls;
        }
        for y in first_y..last_y + 1
            invariant
                first_x < self.columns,
                last_x < self.columns,
                first_y <= last_y < self.rows,
                cells == self.spec_cells(),
                has_shape(cells, self.columns as int, self.rows as int),
                walls@ == range_walls(cells, first_x as int, last_x as int, first_y as int, y - 1),
        {
            assert(cells[y as int].len() == self.columns);
            if first_x > last_x {
                assert(walls@ =~= range_walls(cells, first_x as int, last_x as int, first_y as int, y as int));
            } else {
            for x in first_x..last_x + 1
                invariant
                    first_x <= last_x < self.columns,
                    first_y <= y <= last_y < self.rows,
                    cells == self.spec_cells(),
                    has_shape(cells, self.columns as int, self.rows as int),
                    cells[y as int].len() == self.columns,
                    walls@ == range_walls(cells, first_x as int, last_x as int, first_y as int, y - 1)
                        + row_walls(cells[y as int], first_x as int, x - 1),
            {
                assert(self.cells@[y as int]@.len() == cells[y as int].len());
                let cell = &self.cells[y][x];
                let ghost before = walls@;
                let count = cell.len();
                for k in 0..count
                    invariant
                        count == cell@.len(),
                        walls@ == before + cell@.take(k as int),
                {
                    walls.push(cell[k]);
                    assert(cell@.take(k + 1) =~= cell@.take(k as int).push(cell@[k as int]));
                }
                assert(cell@.take(count as int) =~= cell@);
                assert(cell@ == cells[y as int][x as int]);
                assert(row_walls(cells[y as int], first_x as int, x as int) == row_walls(
                    cells[y as int],
                    first_x as int,
                    x - 1,
                ) + cells[y as int][x as int]);
                assert(walls@ =~= range_walls(cells, first_x as int, last_x as int, first_y as int, y - 1)
                    + row_walls(cells[y as int], first_x as int, x as int));
            }
            }
        }
        walls
    }

    /// The number of columns.
    pub fn columns(&self) -> (columns: usize)
        ensures
            columns == self.spec_columns(),
            columns >= 1,
    {
        proof {
            use_type_invariant(self);
        }
        self.columns
    }

    /// The number of rows.
    pub fn rows(&self) -> (rows: usize)
        ensures
            rows == self.spec_rows(),
            rows >= 1,
    {
        proof {
            use_type_invariant(self);
        }
        self.rows
    }
}

/// Adds wall `wall` to every cell of `range`, at the end of each cell's list.
fn insert_wall(cells: &mut Vec<Vec<Vec<usize>>>, columns: usize, rows: usize, wall: usize, range: CellRange)
    requires
        columns >= 1,
        rows >= 1,
        has_shape(cells_view(old(cells)@), columns as int, rows as int),
    ensures
        has_shape(cells_view(final(cells)@), columns as int, rows as int),
        forall|x: int, y: int|
            0 <= x < columns && 0 <= y < rows ==> #[trigger] cells_view(final(cells)@)[y][x] == if range_covers(
                range,
                columns as int,
                rows as int,
                x,
                y,
            ) {
                cells_view(old(cells)@)[y][x].push(wall)
            } else {
                cells_view(old(cells)@)[y][x]
            },
{
    let first_x = if range.min_column < columns { range.min_column } else { columns - 1 };
    let last_x = if range.max_column < columns { range.max_column } else { columns - 1 };
    let first_y = if range.min_row < rows { range.min_row } else { rows - 1 };
    let last_y = if range.max_row < rows { range.max_row } else { rows - 1 };
    let ghost before = cells_view(cells@);
    if first_y > last_y || first_x > last_x {
        return;
    }
    for y in first_y..last_y + 1
        invariant
            first_x <= last_x < columns,
            first_y <= last_y < rows,
            has_shape(cells_view(cells@), columns as int, rows as int),
            forall|xx: int, yy: int|
                0 <= xx < columns && 0 <= yy < rows ==> #[trigger] cells_view(cells@)[yy][xx] == if first_x
                    <= xx <= last_x && first_y <= yy < y {
                    before[yy][xx].push(wall)
                } else {
                    before[yy][xx]
                },
    {
        for x in first_x..last_x + 1
            invariant
                first_x <= last_x < columns,
                first_y <= y <= last_y < rows,
                has_shape(cells_view(cells@), columns as int, rows as int),
                forall|xx: int, yy: int|
                    0 <= xx < columns && 0 <= yy < rows ==> #[trigger] cells_view(cells@)[yy][xx] == if first_x
                        <= xx <= last_x && (first_y <= yy < y || (yy == y && xx < x)) {
                        before[yy][xx].push(wall)
                    } else {
                        before[yy][xx]
                    },
        {
            let ghost current = cells_view(cells@);
            assert(current[y as int].len() == columns);
            cells[y][x].push(wall);
            assert(cells_view(cells@) =~~= current.update(
                y as int,
                current[y as int].update(x as int, current[y as int][x as int].push(wall)),
            ));
        }
    }
}

proof fn lemma_covering_contains(
    ranges: Seq<CellRange>,
    n: nat,
    columns: int,
    rows: int,
    x: int,
    y: int,
    wall: usize,
)
    requires
        n <= ranges.len() <= usize::MAX,
    ensures
        covering_walls(ranges, n, columns, rows, x, y).contains(wall) <==> (wall < n && range_covers(
            ranges[wall as int],
            columns,
            rows,
            x,
            y,
        )),
    decreases n,
{
    if n > 0 {
        lemma_covering_contains(ranges, (n - 1) as nat, columns, rows, x, y, wall);
        let earlier = covering_walls(ranges, (n - 1) as nat, columns, rows, x, y);
        if range_covers(ranges[n - 1], columns, rows, x, y) {
            assert(earlier.push((n - 1) as usize).contains(wall) <==> (earlier.contains(wall) || wall == n
                - 1)) by {
                if wall == n - 1 {
                    assert(earlier.push((n - 1) as usize)[earlier.len() as int] == wall);
                }
                if earlier.push((n - 1) as usize).contains(wall) {
                    let pushed = earlier.push((n - 1) as usize);
                    let i = choose|i: int| 0 <= i < pushed.len() && pushed[i] == wall;
                    if i < earlier.len() {
                        assert(earlier[i] == wall);
                    }
                }
                if earlier.contains(wall) {
                    let i = choose|i: int| 0 <= i < earlier.len() && earlier[i] == wall;
                    assert(earlier.push((n - 1) as usize)[i] == wall);
                }
            }
        }
    }
}

proof fn lemma_row_contains(row: Seq<Seq<usize>>, first: int, last: int, wall: usize)
    requires
        0 <= first,
        last < row.len(),
    ensures
        row_walls(row, first, last).contains(wall) <==> exists|x: int|
            first <= x <= last && (#[trigger] row[x]).contains(wall),
    decreases last - first + 1,
{
    if last >= first {
        lemma_row_contains(row, first, last - 1, wall);
        let earlier = row_walls(row, first, last - 1);
        let whole = earlier + row[last];
        if whole.contains(wall) {
            let i = choose|i: int| 0 <= i < whole.len() && whole[i] == wall;
            if i < earlier.len() {
                assert(earlier[i] == wall);
            } else {
                assert(row[last][i - earlier.len()] == wall);
                assert(row[last].contains(wall));
            }
        }
        if exists|x: int| first <= x <= last && (#[trigger] row[x]).contains(wall) {
            let x = choose|x: int| first <= x <= last && (#[trigger] row[x]).contains(wall);
            if x < last {
                let i = choose|i: int| 0 <= i < earlier.len() && earlier[i] == wall;
                assert(whole[i] == wall);
            } else {
                let i = choose|i: int| 0 <= i < row[last].len() && row[last][i] == wall;
                assert(whole[earlier.len() + i] == wall);
            }
        }
    }
}

proof fn lemma_range_contains(
    cells: Seq<Seq<Seq<usize>>>,
    columns: int,
    rows: int,
    first_x: int,
    last_x: int,
    first_y: int,
    last_y: int,
    wall: usize,
)
    requires
        has_shape(cells, columns, rows),
        0 <= first_x,
        last_x < columns,
        0 <= first_y,
        last_y < rows,
    ensures
        range_walls(cells, first_x, last_x, first_y, last_y).contains(wall) <==> exists|x: int, y: int|
            first_x <= x <= last_x && first_y <= y <= last_y && (#[trigger] cells[y][x]).contains(wall),
    decreases last_y - first_y + 1,
{
    if last_y >= first_y {
        lemma_range_contains(cells, columns, rows, first_x, last_x, first_y, last_y - 1, wall);
        lemma_row_contains(cells[last_y], first_x, last_x, wall);
        let earlier = range_walls(cells, first_x, last_x, first_y, last_y - 1);
        let top = row_walls(cells[last_y], first_x, last_x);
        let whole = earlier + top;
        if whole.contains(wall) {
            let i = choose|i: int| 0 <= i < whole.len() && whole[i] == wall;
            if i < earlier.len() {
                assert(earlier[i] == wall);
                assert(earlier.contains(wall));
                let (x, y) = choose|x: int, y: int|
                    first_x <= x <= last_x && first_y <= y <= last_y - 1 && (#[trigger] cells[y][x]).contains(
                        wall,
                    );
                assert(cells[y][x].contains(wall));
            } else {
                assert(top[i - earlier.len()] == wall);
                assert(top.contains(wall));
                let x = choose|x: int| first_x <= x <= last_x && (#[trigger] cells[last_y][x]).contains(wall);
                assert(cells[last_y][x].contains(wall));
            }
        }
        if exists|x: int, y: int|
            first_x <= x <= last_x && first_y <= y <= last_y && (#[trigger] cells[y][x]).contains(wall) {
            let (x, y) = choose|x: int, y: int|
                first_x <= x <= last_x && first_y <= y <= last_y && (#[trigger] cells[y][x]).contains(wall);
            if y < last_y {
                assert(earlier.contains(wall));
                let i = choose|i: int| 0 <= i < earlier.len() && earlier[i] == wall;
                assert(whole[i] == wall);
            } else {
                assert(cells[last_y][x].contains(wall));
                assert(top.contains(wall));
                let i = choose|i: int| 0 <= i < top.len() && top[i] == wall;
                assert(whole[earlier.len() + i] == wall);
            }
        }
    }
}

/// A query over an index built from the walls' cell ranges reports a wall
/// if and only if the wall's range shares a cell with the queried range: no
/// wall that may touch the queried area is missed, and no other wall is
/// reported.
pub proof fn lemma_query_reports_overlapping_walls(
    ranges: Seq<CellRange>,
    columns: nat,
    rows: nat,
    query: CellRange,
    wall: usize,
)
    requires
        ranges.len() <= usize::MAX,
        columns >= 1,
        rows >= 1,
    ensures
        range_walls(
            built_cells(ranges, columns, rows),
            clamp_index(query.min_column as int, columns as int),
            clamp_index(query.max_column as int, columns as int),
            clamp_index(query.min_row as int, rows as int),
            clamp_index(query.max_row as int, rows as int),
        ).contains(wall) <==> (wall < ranges.len() && ranges_overlap(
            ranges[wall as int],
            query,
            columns as int,
            rows as int,
        )),
{
    let c = columns as int;
    let r = rows as int;
    let cells = built_cells(ranges, columns, rows);
    let qx0 = clamp_index(query.min_column as int, c);
    let qx1 = clamp_index(query.max_column as int, c);
    let qy0 = clamp_index(query.min_row as int, r);
    let qy1 = clamp_index(query.max_row as int, r);
    assert(has_shape(cells, c, r));
    lemma_range_contains(cells, c, r, qx0, qx1, qy0, qy1, wall);
    if range_walls(cells, qx0, qx1, qy0, qy1).contains(wall) {
        let (x, y) = choose|x: int, y: int|
            qx0 <= x <= qx1 && qy0 <= y <= qy1 && (#[trigger] cells[y][x]).contains(wall);
        lemma_covering_contains(ranges, ranges.len(), c, r, x, y, wall);
    }
    if wall < ranges.len() && ranges_overlap(ranges[wall as int], query, c, r) {
        let range = ranges[wall as int];
        let rx0 = clamp_index(range.min_column as int, c);
        let ry0 = clamp_index(range.min_row as int, r);
        let x = if rx0 < qx0 { qx0 } else { rx0 };
        let y = if ry0 < qy0 { qy0 } else { ry0 };
        lemma_covering_contains(ranges, ranges.len(), c, r, x, y, wall);
        assert(cells[y][x].contains(wall));
    }
}

/// An index inside a grid dimension stands for itself; only an index past
/// the last cell is capped to the last cell. The capping keeps the order of
/// indices.
pub proof fn lemma_clamp_keeps_in_grid_indices(raw: int, other: int, count: int)
    requires
        count >= 1,
        0 <= raw,
        0 <= other,
    ensures
        raw < count ==> clamp_index(raw, count) == raw,
        raw >= count ==> clamp_index(raw, count) == count - 1,
        0 <= clamp_index(raw, count) < count,
        raw <= other ==> clamp_index(raw, count) <= clamp_index(other, count),
{
}

/// A wall whose cell range lies inside the grid covers exactly the cells of
/// that range: columns `min_column..=max_column` of rows `min_row..=max_row`.
pub proof fn lemma_in_grid_range_covers_its_cells(range: CellRange, columns: int, rows: int, x: int, y: int)
    requires
        range.min_column < columns,
        range.max_column < columns,
        range.min_row < rows,
        range.max_row < rows,
    ensures
        range_covers(range, columns, rows, x, y) <==> (range.min_column <= x <= range.max_column
            && range.min_row <= y <= range.max_row),
{
}

/// In an index built over walls whose cell ranges lie inside the grid, the
/// cell at column `x` and row `y` lists wall `w` exactly when `x` and `y`
/// fall within wall `w`'s range.
pub proof fn lemma_built_cell_lists_wall_in_range(
    ranges: Seq<CellRange>,
    columns: nat,
    rows: nat,
    x: int,
    y: int,
    wall: usize,
)
    requires
        ranges.len() <= usize::MAX,
        0 <= x < columns,
        0 <= y < rows,
        forall|i: int|
            0 <= i < ranges.len() ==> (#[trigger] ranges[i]).max_column < columns && ranges[i].max_row
                < rows && ranges[i].min_column < columns && ranges[i].min_row < rows,
    ensures
        built_cells(ranges, columns, rows)[y][x].contains(wall) <==> (wall < ranges.len()
            && ranges[wall as int].min_column <= x <= ranges[wall as int].max_column
            && ranges[wall as int].min_row <= y <= ranges[wall as int].max_row),
{
    lemma_covering_contains(ranges, ranges.len(), columns as int, rows as int, x, y, wall);
    if wall < ranges.len() {
        lemma_in_grid_range_covers_its_cells(ranges[wall as int], columns as int, rows as int, x, y);
    }
}

} // verus!
