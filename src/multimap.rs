use vstd::prelude::*;

use crate::colors::{BitMapDrawable, Color, ColorbarValue, Gradient};
use crate::data::{ColorWithThickness, Data};
use crate::geometry::{fits_i32, lemma_product_fits, CoordinatePoint, ShowPoint, ShowRect};
use crate::layout::{compute_columns_rows, is_grid};

verus! {

/// Why a frame could not be rendered.
#[derive(Clone, Debug, PartialEq, Eq)]
pub enum RenderProblem {
    /// Data sets exist, but all of them are hidden
    CountIsZero,
    /// The raster is narrower than the colorbar and its separator
    WidthSmallerThanColorBar,
    /// No data set was given
    NoData,
    /// Copying to the clipboard failed
    ClipboardIssue(String),
}

/// What lies under a raster pixel.
#[derive(Clone, Copy, Debug, PartialEq, Eq, Structural)]
pub enum MultiMapPosition {
    /// Nothing: outside the cells and the colorbar
    NotHovering,
    /// A point of data set `.0` (an index into the data sets) where it has no data
    NoData(usize, CoordinatePoint),
    /// A point of data set `.0` (an index into the data sets) where it has data
    Pixel(usize, CoordinatePoint),
    /// The colorbar, at the given value
    Colorbar(ColorbarValue),
}

/// A colorbar: a gradient drawn `thickness` pixels wide at the right edge.
pub struct Colorbar {
    /// Colors from the lower to the upper end of the value range
    pub gradient: Gradient<Color>,
    /// Width in pixels
    pub thickness: usize,
}

/// A data set and the key it is known by.
pub struct DataWithMetadata<Key> {
    /// Key of the data set
    pub key: Key,
    /// The data set
    pub data: Data,
}

/// The settings of a renderer.
pub struct ShowMultiMapSettings {
    /// Lines between the cells of the grid
    pub boundary_between_data: ColorWithThickness,
    /// The colorbar, if one is shown
    pub colorbar: Option<Colorbar>,
    /// Color where there is no data
    pub background: Color,
    /// Outline of points that are not selected
    pub boundary_unselected: ColorWithThickness,
    /// Outline color of selected points
    pub boundary_selected: Color,
    /// Outlines are drawn only where a point is more than this many outline
    /// thicknesses wide and high
    pub boundary_factor_min: usize,
}

/// The view state of one session: which data sets are shown, which points
/// are selected and which rectangle of data coordinates is visible.
#[derive(Clone, Debug)]
pub struct MultimapState {
    /// Whether data set `i` is shown; data sets past the end are shown
    pub to_plot: Vec<bool>,
    /// The selected points, each once
    pub selected: Vec<CoordinatePoint>,
    /// The visible rectangle, once it is known
    pub shown_rectangle: Option<ShowRect>,
}

/// Whether data set `i` is shown under the visibility flags `to_plot`.
pub open spec fn shown(to_plot: Seq<bool>, i: int) -> bool {
    i >= to_plot.len() || to_plot[i]
}

/// The indices of the first `n` data sets that are shown, in order.
pub open spec fn visible_prefix(to_plot: Seq<bool>, n: int) -> Seq<usize>
    decreases n,
{
    if n <= 0 {
        seq![]
    } else if shown(to_plot, n - 1) {
        visible_prefix(to_plot, n - 1).push((n - 1) as usize)
    } else {
        visible_prefix(to_plot, n - 1)
    }
}

pub open spec fn selected_contains(selected: Seq<CoordinatePoint>, x: int, y: int) -> bool {
    exists|i: int| 0 <= i < selected.len() && selected[i].x == x && selected[i].y == y
}

impl MultimapState {
    /// No point is selected twice and the shown rectangle is not empty.
    pub open spec fn wf(&self) -> bool {
        &&& self.selected@.no_duplicates()
        &&& self.shown_rectangle is Some ==> self.shown_rectangle->Some_0.wf()
    }

    /// Whether data set `i` is shown.
    pub fn to_plot(&self, i: usize) -> (r: bool)
        ensures
            r == shown(self.to_plot@, i as int),
    {
        i >= self.to_plot.len() || self.to_plot[i]
    }

    /// The shown rectangle in data coordinates, once it is known.
    pub fn currently_showing(&self) -> (r: Option<crate::geometry::CoordinateRect>)
        ensures
            r is Some <==> self.shown_rectangle is Some,
            r is Some ==> r->Some_0.left_top.x == self.shown_rectangle->Some_0.left_top.x
                && r->Some_0.left_top.y == self.shown_rectangle->Some_0.left_top.y
                && r->Some_0.right_bottom.x == self.shown_rectangle->Some_0.right_bottom.x
                && r->Some_0.right_bottom.y == self.shown_rectangle->Some_0.right_bottom.y,
    {
        match &self.shown_rectangle {
            Some(rect) => Some(rect.to_coordinate_rect()),
            None => None,
        }
    }
}

/// The division of the raster into a grid of cells.
#[derive(Clone, Copy, Debug, PartialEq, Eq, Structural)]
pub struct Layout {
    /// Number of cell columns
    pub columns: usize,
    /// Number of cell rows
    pub rows: usize,
    /// Width of each cell in pixels
    pub cell_width: usize,
    /// Height of each cell in pixels
    pub cell_height: usize,
    /// Width of the grid of cells and lines between them
    pub plot_width: usize,
    /// Height of the grid of cells and lines between them
    pub plot_height: usize,
}

/// The size of each of `cells` cells that share `available` pixels with
/// `cells - 1` lines `line` pixels thick between them; 0 where the lines alone
/// take all the space.
pub open spec fn cell_size(available: int, cells: int, line: int) -> int {
    let lines = line * (cells - 1);
    if lines > available {
        0
    } else {
        (available - lines) / cells
    }
}

/// The extent of the cells and the lines between them, within `available`.
pub open spec fn plot_size(available: int, cells: int, line: int) -> int {
    let size = cells * cell_size(available, cells, line) + line * (cells - 1);
    if size > available {
        available
    } else {
        size
    }
}

/// Cells and the plot fit in the space they share.
pub proof fn lemma_cell_size_bounds(available: int, cells: int, line: int)
    requires
        available >= 0,
        cells >= 1,
        line >= 0,
    ensures
        0 <= cell_size(available, cells, line) <= available,
        0 <= plot_size(available, cells, line) <= available,
{
    let lines = line * (cells - 1);
    assert(lines >= 0) by (nonlinear_arith)
        requires line >= 0, cells >= 1, lines == line * (cells - 1);
    if lines <= available {
        assert((available - lines) / cells <= available) by (nonlinear_arith)
            requires lines <= available, lines >= 0, cells >= 1;
    }
    assert(cells * cell_size(available, cells, line) >= 0) by (nonlinear_arith)
        requires cells >= 1, cell_size(available, cells, line) >= 0;
}

/// The layout of `count` cells in `width` by `height` pixels, of which
/// `reserved` columns at the right are kept for the colorbar.
pub open spec fn layout_of(width: int, height: int, count: int, line: int, reserved: int) -> Layout {
    let columns = grid_columns(count);
    let rows = grid_rows(count);
    Layout {
        columns: columns as usize,
        rows: rows as usize,
        cell_width: cell_size(width - reserved, columns, line) as usize,
        cell_height: cell_size(height, rows, line) as usize,
        plot_width: plot_size(width - reserved, columns, line) as usize,
        plot_height: plot_size(height, rows, line) as usize,
    }
}

/// Some number of rows completes a grid of `columns` columns for `count` cells.
pub open spec fn has_grid_rows(count: int, columns: int) -> bool {
    exists|r: int| #[trigger] is_grid(count, columns, r)
}

/// The grid columns for `count` cells.
pub open spec fn grid_columns(count: int) -> int {
    choose|c: int| #[trigger] has_grid_rows(count, c)
}

/// The grid rows for `count` cells.
pub open spec fn grid_rows(count: int) -> int {
    choose|r: int| #[trigger] is_grid(count, grid_columns(count), r)
}

/// A number of columns for `count` cells exists.
pub proof fn lemma_grid_columns_exist(count: int) -> (c: int)
    requires
        count >= 1,
    ensures
        crate::layout::is_grid_columns(count, c),
    decreases count,
{
    if count == 1 {
        assert(1 * 1 >= count && (1 - 1) * (1 - 1) < count);
        1
    } else {
        let c = lemma_grid_columns_exist(count - 1);
        if c * c >= count {
            c
        } else {
            assert((c + 1 - 1) * (c + 1 - 1) == c * c);
            assert((c + 1) * (c + 1) >= count) by (nonlinear_arith)
                requires c * c >= count - 1, c >= 1;
            c + 1
        }
    }
}

/// A grid for `count` cells exists.
pub proof fn lemma_grid_exists(count: int) -> (r: (int, int))
    requires
        count >= 0,
    ensures
        is_grid(count, r.0, r.1),
{
    if count == 0 {
        (0, 0)
    } else {
        let c = lemma_grid_columns_exist(count);
        let rows = (count + c - 1) / c;
        assert(rows * c >= count && (rows - 1) * c < count && rows >= 1) by (nonlinear_arith)
            requires rows == (count + c - 1) / c, c >= 1, count >= 1;
        (c, rows)
    }
}

/// The grid that `compute_columns_rows` finds is the one the layout speaks of.
pub proof fn lemma_grid_of(count: int, columns: int, rows: int)
    requires
        count >= 0,
        is_grid(count, columns, rows),
    ensures
        grid_columns(count) == columns,
        grid_rows(count) == rows,
{
    assert(has_grid_rows(count, columns));
    let c = grid_columns(count);
    assert(has_grid_rows(count, c));
    let r0 = choose|r: int| #[trigger] is_grid(count, c, r);
    lemma_grid_unique(count, columns, rows, c, r0);
    assert(is_grid(count, c, rows));
    let r = grid_rows(count);
    lemma_grid_unique(count, columns, rows, c, r);
}

/// The grid of `count` cells is unique.
pub proof fn lemma_grid_unique(count: int, c1: int, r1: int, c2: int, r2: int)
    requires
        count >= 0,
        is_grid(count, c1, r1),
        is_grid(count, c2, r2),
    ensures
        c1 == c2,
        r1 == r2,
{
    if count > 0 {
        if c1 < c2 {
            assert(c1 * c1 <= (c2 - 1) * (c2 - 1)) by (nonlinear_arith)
                requires 1 <= c1 <= c2 - 1;
        }
        if c2 < c1 {
            assert(c2 * c2 <= (c1 - 1) * (c1 - 1)) by (nonlinear_arith)
                requires 1 <= c2 <= c1 - 1;
        }
        if r1 < r2 {
            assert(r1 * c1 <= (r2 - 1) * c1) by (nonlinear_arith)
                requires r1 <= r2 - 1, c1 >= 1;
        }
        if r2 < r1 {
            assert(r2 * c1 <= (r1 - 1) * c1) by (nonlinear_arith)
                requires r2 <= r1 - 1, c1 >= 1;
        }
    }
}

/// Where a raster pixel lies.
#[derive(Clone, Copy, Debug, PartialEq, Eq, Structural)]
pub enum PixelKind {
    /// Outside the grid and the colorbar
    Outside,
    /// On a line between cells, or on the line before the colorbar
    Line,
    /// On the colorbar
    Colorbar,
    /// In a cell of the grid that no data set fills
    EmptyCell,
    /// In cell `slot` (row by row), at the given position inside the cell
    Cell { slot: usize, column: usize, row: usize },
}

/// Where pixel `(x, y)` of a `width` by `height` raster lies.
pub open spec fn pixel_kind(
    l: Layout,
    width: int,
    height: int,
    line: int,
    colorbar: Option<int>,
    count: int,
    x: int,
    y: int,
) -> PixelKind {
    if colorbar is Some && x >= width - colorbar->Some_0 - line {
        if x >= width - colorbar->Some_0 {
            PixelKind::Colorbar
        } else {
            PixelKind::Line
        }
    } else if x < l.plot_width && y < l.plot_height {
        let pitch_x = l.cell_width + line;
        let pitch_y = l.cell_height + line;
        if x % pitch_x >= l.cell_width || y % pitch_y >= l.cell_height {
            PixelKind::Line
        } else if (y / pitch_y) * l.columns + x / pitch_x >= count {
            PixelKind::EmptyCell
        } else {
            PixelKind::Cell {
                slot: ((y / pitch_y) * l.columns + x / pitch_x) as usize,
                column: (x % pitch_x) as usize,
                row: (y % pitch_y) as usize,
            }
        }
    } else {
        PixelKind::Outside
    }
}

/// The data coordinate on one axis that position `pos` of a cell `cell`
/// pixels long shows, when `extent` coordinates are shown at `per_point`
/// pixels each (0 when several coordinates share a pixel), starting at
/// `start`; and whether the pixel lies on the outline of its point.
pub open spec fn map_axis(pos: int, cell: int, extent: int, per_point: int, line: int, start: int) -> (
    int,
    bool,
) {
    if per_point > 0 {
        let margin = (cell % per_point + 1) / 2;
        if pos < margin {
            (start - 1, pos + line >= margin)
        } else {
            let p = pos - margin;
            (start + p / per_point, p % per_point < line || p % per_point + line >= per_point)
        }
    } else {
        (start + pos * extent / cell, false)
    }
}

/// The outline thickness for points of `per_x` by `per_y` pixels.
pub open spec fn outline_thickness(per_x: int, per_y: int, factor: int, thickness: int) -> int {
    if (per_x > 0 || per_y > 0) && (per_x == 0 || per_x > factor * thickness) && (per_y == 0
        || per_y > factor * thickness) {
        thickness
    } else {
        0
    }
}

/// The data point that cell pixel `(column, row)` shows, and whether it lies on an outline.
pub open spec fn cell_point(
    rect: ShowRect,
    cell_width: int,
    cell_height: int,
    factor: int,
    thickness: int,
    column: int,
    row: int,
) -> (int, int, bool) {
    let per_x = cell_width / rect.width();
    let per_y = cell_height / rect.height();
    let line = outline_thickness(per_x, per_y, factor, thickness);
    let (x, bx) = map_axis(column, cell_width, rect.width(), per_x, line, rect.left_top.x as int);
    let (y, by) = map_axis(row, cell_height, rect.height(), per_y, line, rect.left_top.y as int);
    (x, y, bx || by)
}

/// Where a cell shows more data points than it has pixels on both axes, no
/// pixel lies on an outline, whatever the outline settings.
pub proof fn lemma_subsample_has_no_outline(
    rect: ShowRect,
    cell_width: int,
    cell_height: int,
    factor: int,
    thickness: int,
    column: int,
    row: int,
)
    requires
        rect.wf(),
        0 <= column < cell_width < rect.width(),
        0 <= row < cell_height < rect.height(),
    ensures
        !cell_point(rect, cell_width, cell_height, factor, thickness, column, row).2,
{
    assert(cell_width / rect.width() == 0) by (nonlinear_arith)
        requires 0 <= cell_width < rect.width();
    assert(cell_height / rect.height() == 0) by (nonlinear_arith)
        requires 0 <= cell_height < rect.height();
}

/// The position of a pixel that shows data point `(x, y)` of data set `index`.
pub open spec fn position_of(d: Data, index: usize, x: int, y: int) -> MultiMapPosition {
    if !fits_i32(x) || !fits_i32(y) {
        MultiMapPosition::NotHovering
    } else if d.color_at(x, y) is Some {
        MultiMapPosition::Pixel(index, CoordinatePoint { x: x as i32, y: y as i32 })
    } else {
        MultiMapPosition::NoData(index, CoordinatePoint { x: x as i32, y: y as i32 })
    }
}

impl<Key> ShowMultiMap<Key> {
    /// Every data set is well formed and a colorbar has colors.
    pub open spec fn wf(&self) -> bool {
        &&& forall|i: int| 0 <= i < self.data@.len() ==> (#[trigger] self.data@[i]).data.wf()
        &&& self.colorbar is Some ==> self.colorbar->Some_0.gradient.stops().len() > 0
    }

    /// The colorbar's thickness, if there is a colorbar.
    pub open spec fn colorbar_thickness(&self) -> Option<int> {
        match self.colorbar {
            Some(c) => Some(c.thickness as int),
            None => None,
        }
    }

    /// The pixel columns kept for the colorbar and its separating line.
    pub open spec fn reserved_width(&self) -> int {
        match self.colorbar {
            Some(c) => c.thickness + self.boundary_between_data.thickness,
            None => 0,
        }
    }

    /// The layout of a `width` by `height` raster with `count` cells.
    pub open spec fn layout_spec(&self, width: int, height: int, count: int) -> Layout {
        layout_of(width, height, count, self.boundary_between_data.thickness as int, self.reserved_width())
    }

    /// The color of cell pixel `(column, row)` of a cell that shows `d`.
    pub open spec fn cell_color(
        &self,
        d: Data,
        rect: ShowRect,
        selected: Seq<CoordinatePoint>,
        l: Layout,
        column: int,
        row: int,
    ) -> Color {
        let (x, y, on_outline) = cell_point(
            rect,
            l.cell_width as int,
            l.cell_height as int,
            self.boundary_factor_min as int,
            self.boundary_unselected.thickness as int,
            column,
            row,
        );
        let c = match d.color_at(x, y) {
            None => self.background,
            Some(c) => if on_outline {
                if selected_contains(selected, x, y) {
                    self.boundary_selected
                } else {
                    self.boundary_unselected.color
                }
            } else {
                c
            },
        };
        let c = if self.in_drag_area(x, y) {
            c.darkened_spec()
        } else {
            c
        };
        c.opaque_spec()
    }

    /// Point `(x, y)` lies in the rectangle that is being dragged.
    pub open spec fn in_drag_area(&self, x: int, y: int) -> bool {
        match self.drag_area {
            Some(((lt, rb), _)) => lt.x <= x <= rb.x && lt.y <= y <= rb.y,
            None => false,
        }
    }

    /// The color of pixel `(x, y)` of a rendered `width` by `height` raster.
    pub open spec fn pixel_color(
        &self,
        state: MultimapState,
        rect: ShowRect,
        width: int,
        height: int,
        x: int,
        y: int,
    ) -> Color {
        let visible = visible_prefix(state.to_plot@, self.data@.len() as int);
        let l = self.layout_spec(width, height, visible.len() as int);
        match pixel_kind(
            l,
            width,
            height,
            self.boundary_between_data.thickness as int,
            self.colorbar_thickness(),
            visible.len() as int,
            x,
            y,
        ) {
            PixelKind::Outside => self.background,
            PixelKind::EmptyCell => self.background,
            PixelKind::Line => self.boundary_between_data.color,
            PixelKind::Colorbar => {
                let stops = self.colorbar->Some_0.gradient.stops();
                stops[(height - 1 - y) * stops.len() / height].opaque_spec()
            },
            PixelKind::Cell { slot, column, row } => self.cell_color(
                self.data@[visible[slot as int] as int].data,
                rect,
                state.selected@,
                l,
                column as int,
                row as int,
            ),
        }
    }

    /// What a pointer at pixel `(x, y)` of a `width` by `height` raster points at.
    pub open spec fn position_spec(
        &self,
        state: MultimapState,
        width: int,
        height: int,
        x: int,
        y: int,
    ) -> MultiMapPosition {
        let visible = visible_prefix(state.to_plot@, self.data@.len() as int);
        let l = self.layout_spec(width, height, visible.len() as int);
        if visible.len() == 0 || x >= width || y >= height || self.reserved_width() > width {
            MultiMapPosition::NotHovering
        } else {
            match pixel_kind(
                l,
                width,
                height,
                self.boundary_between_data.thickness as int,
                self.colorbar_thickness(),
                visible.len() as int,
                x,
                y,
            ) {
                PixelKind::Colorbar => {
                    let n = self.colorbar->Some_0.gradient.stops().len();
                    MultiMapPosition::Colorbar(
                        if n == 1 {
                            ColorbarValue::Middle
                        } else {
                            ColorbarValue::Step {
                                index: crate::colors::step_index(n as int, height - y, height)
                                    as usize,
                                last: (n - 1) as usize,
                            }
                        },
                    )
                },
                PixelKind::Cell { slot, column, row } => if state.shown_rectangle is None {
                    MultiMapPosition::NotHovering
                } else {
                    let index = visible[slot as int];
                    let (px, py, _) = cell_point(
                        state.shown_rectangle->Some_0,
                        l.cell_width as int,
                        l.cell_height as int,
                        self.boundary_factor_min as int,
                        self.boundary_unselected.thickness as int,
                        column as int,
                        row as int,
                    );
                    position_of(self.data@[index as int].data, index, px, py)
                },
                _ => MultiMapPosition::NotHovering,
            }
        }
    }
}

/// A renderer of several data sets into one raster. The data sets and
/// settings are shared by all sessions; only the rectangle being dragged is
/// kept here.
pub struct ShowMultiMap<Key> {
    /// The data sets, in the order of the cells
    pub data: Vec<DataWithMetadata<Key>>,
    /// Lines between the cells of the grid
    pub boundary_between_data: ColorWithThickness,
    /// The colorbar, if one is shown
    pub colorbar: Option<Colorbar>,
    /// Color where there is no data
    pub background: Color,
    /// Outline of points that are not selected
    pub boundary_unselected: ColorWithThickness,
    /// Outline color of selected points
    pub boundary_selected: Color,
    /// Outlines are drawn only where a point is more than this many outline
    /// thicknesses wide and high
    pub boundary_factor_min: usize,
    /// The rectangle being dragged (left top and right bottom, both included),
    /// and the point where the drag started
    pub drag_area: Option<((CoordinatePoint, CoordinatePoint), CoordinatePoint)>,
}

/// The size of each cell; see `cell_size`.
fn cell_size_exec(available: usize, cells: usize, line: usize) -> (r: usize)
    requires
        cells >= 1,
    ensures
        r == cell_size(available as int, cells as int, line as int),
        r <= available,
{
    proof {
        lemma_product_fits(line as int, cells - 1int);
    }
    let lines = line as u128 * (cells - 1) as u128;
    if lines > available as u128 {
        0
    } else {
        let r = (available - lines as usize) / cells;
        proof {
            assert(r <= available) by (nonlinear_arith)
                requires r == (available - lines) / (cells as int), cells >= 1, lines <= available, lines >= 0;
        }
        r
    }
}

/// The extent of the cells and lines; see `plot_size`.
fn plot_size_exec(available: usize, cells: usize, line: usize, cell: usize) -> (r: usize)
    requires
        cells >= 1,
        cell == cell_size(available as int, cells as int, line as int),
    ensures
        r == plot_size(available as int, cells as int, line as int),
        r <= available,
{
    proof {
        lemma_product_fits(line as int, cells - 1int);
    }
    let lines = line as u128 * (cells - 1) as u128;
    if lines > available as u128 {
        proof {
            assert(cells * cell + line * (cells - 1) > available) by (nonlinear_arith)
                requires cell == 0, line * (cells - 1) > available;
        }
        available
    } else {
        proof {
            assert(cells * cell <= available - lines) by (nonlinear_arith)
                requires cell == (available - lines) / (cells as int), cells >= 1, lines <= available,
                    lines >= 0;
        }
        cells * cell + lines as usize
    }
}

/// The indices of the shown data sets among the first `n`, in order.
pub fn visible_indices(to_plot: &Vec<bool>, n: usize) -> (r: Vec<usize>)
    ensures
        r@ == visible_prefix(to_plot@, n as int),
        r@.len() <= n,
        forall|i: int| 0 <= i < r@.len() ==> #[trigger] r@[i] < n,
{
    let mut r: Vec<usize> = Vec::new();
    let mut i: usize = 0;
    while i < n
        invariant
            i <= n,
            r@ == visible_prefix(to_plot@, i as int),
            r@.len() <= i,
            forall|j: int| 0 <= j < r@.len() ==> #[trigger] r@[j] < i,
        decreases n - i,
    {
        if i >= to_plot.len() || to_plot[i] {
            r.push(i);
        }
        i = i + 1;
    }
    r
}

/// Where pixel `(x, y)` lies; see `pixel_kind`.
fn pixel_kind_exec(
    l: Layout,
    width: usize,
    height: usize,
    line: usize,
    colorbar: Option<usize>,
    count: usize,
    x: usize,
    y: usize,
) -> (r: PixelKind)
    requires
        x < width,
        y < height,
        count >= 1,
        is_grid(count as int, l.columns as int, l.rows as int),
        l.cell_width == cell_size(
            width - (if colorbar is Some { colorbar->Some_0 + line } else { 0int }),
            l.columns as int,
            line as int,
        ),
        l.plot_width == plot_size(
            width - (if colorbar is Some { colorbar->Some_0 + line } else { 0int }),
            l.columns as int,
            line as int,
        ),
        l.cell_height == cell_size(height as int, l.rows as int, line as int),
        l.plot_height == plot_size(height as int, l.rows as int, line as int),
    ensures
        r == pixel_kind(
            l,
            width as int,
            height as int,
            line as int,
            match colorbar {
                Some(t) => Some(t as int),
                None => None,
            },
            count as int,
            x as int,
            y as int,
        ),
        r is Cell ==> r->slot < count && r->column < l.cell_width && r->row < l.cell_height,
{
    if let Some(t) = colorbar {
        if x as u128 + t as u128 + line as u128 >= width as u128 {
            if x as u128 + t as u128 >= width as u128 {
                return PixelKind::Colorbar;
            } else {
                return PixelKind::Line;
            }
        }
    }
    if x < l.plot_width && y < l.plot_height {
        let pitch_x = l.cell_width as u128 + line as u128;
        let pitch_y = l.cell_height as u128 + line as u128;
        proof {
            if pitch_x == 0 {
                assert(l.columns * l.cell_width + line * (l.columns - 1) == 0) by (nonlinear_arith)
                    requires l.cell_width == 0, line == 0;
            }
            if pitch_y == 0 {
                assert(l.rows * l.cell_height + line * (l.rows - 1) == 0) by (nonlinear_arith)
                    requires l.cell_height == 0, line == 0;
            }
        }
        let column = x as u128 % pitch_x;
        let row = y as u128 % pitch_y;
        if column >= l.cell_width as u128 || row >= l.cell_height as u128 {
            PixelKind::Line
        } else {
            let cell_row = y as u128 / pitch_y;
            let cell_column = x as u128 / pitch_x;
            proof {
                lemma_product_fits(cell_row as int, l.columns as int);
            }
            let slot = cell_row * l.columns as u128 + cell_column;
            if slot >= count as u128 {
                PixelKind::EmptyCell
            } else {
                PixelKind::Cell { slot: slot as usize, column: column as usize, row: row as usize }
            }
        }
    } else {
        PixelKind::Outside
    }
}

/// The data coordinate and outline flag of one axis; see `map_axis`.
fn map_axis_exec(pos: usize, cell: usize, extent: u64, per_point: usize, line: usize, start: i32) -> (r: (
    i128,
    bool,
))
    requires
        pos < cell,
        1 <= extent,
        per_point <= cell,
    ensures
        (r.0 as int, r.1) == map_axis(
            pos as int,
            cell as int,
            extent as int,
            per_point as int,
            line as int,
            start as int,
        ),
{
    if per_point > 0 {
        let margin = (cell % per_point + 1) / 2;
        if pos < margin {
            (start as i128 - 1, pos as u128 + line as u128 >= margin as u128)
        } else {
            let p = pos - margin;
            let q = p / per_point;
            let rem = p % per_point;
            (
                start as i128 + q as i128,
                rem < line || rem as u128 + line as u128 >= per_point as u128,
            )
        }
    } else {
        proof {
            lemma_product_fits(pos as int, extent as int);
        }
        let q = (pos as u128 * extent as u128) / cell as u128;
        proof {
            assert(q < extent) by (nonlinear_arith)
                requires q == (pos as int) * (extent as int) / (cell as int), pos < cell, pos >= 0,
                    extent >= 1;
        }
        (start as i128 + q as i128, false)
    }
}

/// The per-point sizes of a cell, computed once for all its pixels.
struct CellGeometry {
    extent_x: u64,
    extent_y: u64,
    per_x: usize,
    per_y: usize,
    outline: usize,
}

impl CellGeometry {
    spec fn matches(&self, rect: ShowRect, l: Layout, factor: int, thickness: int) -> bool {
        &&& self.extent_x == rect.width()
        &&& self.extent_y == rect.height()
        &&& self.per_x == (l.cell_width as int) / rect.width()
        &&& self.per_y == (l.cell_height as int) / rect.height()
        &&& self.per_x <= l.cell_width
        &&& self.per_y <= l.cell_height
        &&& self.outline == outline_thickness(self.per_x as int, self.per_y as int, factor, thickness)
    }
}

/// The bounding box of the data sets among the first `n` that are shown, as
/// `(left, top, right, bottom)`.
pub open spec fn union_prefix<Key>(data: Seq<DataWithMetadata<Key>>, to_plot: Seq<bool>, n: int) -> Option<
    (int, int, int, int),
>
    decreases n,
{
    if n <= 0 {
        None
    } else {
        let prev = union_prefix(data, to_plot, n - 1);
        if shown(to_plot, n - 1) {
            let d = data[n - 1].data;
            let left = d.first_point_coordinate.x as int;
            let top = d.first_point_coordinate.y as int;
            let right = d.first_point_coordinate.x + d.width;
            let bottom = d.first_point_coordinate.y + d.height;
            match prev {
                None => Some((left, top, right, bottom)),
                Some((l, t, r, b)) => Some(
                    (
                        if left < l { left } else { l },
                        if top < t { top } else { t },
                        if right > r { right } else { r },
                        if bottom > b { bottom } else { b },
                    ),
                ),
            }
        } else {
            prev
        }
    }
}

impl<Key> ShowMultiMap<Key> {
    /// The rectangle that shows all shown data sets, or `(0, 0)..(1, 1)` if none is shown.
    pub open spec fn home_rect_spec(&self, to_plot: Seq<bool>) -> ShowRect {
        match union_prefix(self.data@, to_plot, self.data@.len() as int) {
            None => ShowRect {
                left_top: ShowPoint { x: 0, y: 0 },
                right_bottom: ShowPoint { x: 1, y: 1 },
            },
            Some((l, t, r, b)) => ShowRect {
                left_top: ShowPoint { x: l as i32, y: t as i32 },
                right_bottom: ShowPoint { x: r as i32, y: b as i32 },
            },
        }
    }

    /// The rectangle that shows all data sets that `to_plot` shows.
    pub fn home_rect(&self, to_plot: &Vec<bool>) -> (r: ShowRect)
        requires
            self.wf(),
        ensures
            r == self.home_rect_spec(to_plot@),
            r.wf(),
    {
        let mut acc: Option<(i32, i32, i32, i32)> = None;
        let mut i: usize = 0;
        while i < self.data.len()
            invariant
                self.wf(),
                i <= self.data@.len(),
                match union_prefix(self.data@, to_plot@, i as int) {
                    None => acc is None,
                    Some((l, t, r, b)) => acc == Some((l as i32, t as i32, r as i32, b as i32))
                        && fits_i32(l) && fits_i32(t) && fits_i32(r) && fits_i32(b) && l < r
                        && t < b,
                },
            decreases self.data@.len() - i,
        {
            if i >= to_plot.len() || to_plot[i] {
                let d = &self.data[i].data;
                assert(d.wf());
                let left = d.first_point_coordinate.x;
                let top = d.first_point_coordinate.y;
                let right = (left as i64 + d.width as i64) as i32;
                let bottom = (top as i64 + d.height as i64) as i32;
                acc = match acc {
                    None => Some((left, top, right, bottom)),
                    Some((l, t, r, b)) => Some(
                        (
                            if left < l { left } else { l },
                            if top < t { top } else { t },
                            if right > r { right } else { r },
                            if bottom > b { bottom } else { b },
                        ),
                    ),
                };
            }
            i = i + 1;
        }
        match acc {
            None => ShowRect {
                left_top: ShowPoint { x: 0, y: 0 },
                right_bottom: ShowPoint { x: 1, y: 1 },
            },
            Some((l, t, r, b)) => ShowRect {
                left_top: ShowPoint { x: l, y: t },
                right_bottom: ShowPoint { x: r, y: b },
            },
        }
    }

    /// The layout of `count` cells in a `width` by `height` raster, or `None`
    /// if the colorbar does not fit.
    pub fn compute_layout(&self, width: usize, height: usize, count: usize) -> (r: Option<Layout>)
        requires
            count >= 1,
        ensures
            r is None <==> self.reserved_width() > width,
            r is Some ==> r->Some_0 == self.layout_spec(width as int, height as int, count as int),
            r is Some ==> is_grid(count as int, r->Some_0.columns as int, r->Some_0.rows as int),
            r is Some ==> r->Some_0.plot_width <= width - self.reserved_width(),
    {
        let line = self.boundary_between_data.thickness;
        let reserved: u128 = match &self.colorbar {
            Some(c) => c.thickness as u128 + line as u128,
            None => 0,
        };
        if reserved > width as u128 {
            return None;
        }
        let available = width - reserved as usize;
        let (columns, rows) = compute_columns_rows(count);
        proof {
            lemma_grid_of(count as int, columns as int, rows as int);
        }
        let cell_width = cell_size_exec(available, columns, line);
        let cell_height = cell_size_exec(height, rows, line);
        let plot_width = plot_size_exec(available, columns, line, cell_width);
        let plot_height = plot_size_exec(height, rows, line, cell_height);
        Some(Layout { columns, rows, cell_width, cell_height, plot_width, plot_height })
    }

    fn cell_geometry(&self, rect: ShowRect, l: Layout) -> (g: CellGeometry)
        requires
            rect.wf(),
        ensures
            g.matches(
                rect,
                l,
                self.boundary_factor_min as int,
                self.boundary_unselected.thickness as int,
            ),
    {
        let extent_x = (rect.right_bottom.x as i64 - rect.left_top.x as i64) as u64;
        let extent_y = (rect.right_bottom.y as i64 - rect.left_top.y as i64) as u64;
        let per_x = (l.cell_width as u128 / extent_x as u128) as usize;
        let per_y = (l.cell_height as u128 / extent_y as u128) as usize;
        proof {
            lemma_product_fits(self.boundary_factor_min as int, self.boundary_unselected.thickness as int);
            assert((l.cell_width as int) / rect.width() <= l.cell_width) by (nonlinear_arith)
                requires rect.width() >= 1, l.cell_width >= 0;
            assert((l.cell_height as int) / rect.height() <= l.cell_height) by (nonlinear_arith)
                requires rect.height() >= 1, l.cell_height >= 0;
        }
        let limit = self.boundary_factor_min as u128 * self.boundary_unselected.thickness as u128;
        let outline = if (per_x > 0 || per_y > 0) && (per_x == 0 || per_x as u128 > limit) && (
        per_y == 0 || per_y as u128 > limit) {
            self.boundary_unselected.thickness
        } else {
            0
        };
        CellGeometry { extent_x, extent_y, per_x, per_y, outline }
    }

    fn in_drag_area_exec(&self, x: i128, y: i128) -> (r: bool)
        ensures
            r == self.in_drag_area(x as int, y as int),
    {
        match &self.drag_area {
            Some(((lt, rb), _)) => lt.x as i128 <= x && x <= rb.x as i128 && lt.y as i128 <= y && y
                <= rb.y as i128,
            None => false,
        }
    }

    fn cell_color_exec(
        &self,
        d: &Data,
        rect: ShowRect,
        selected: &Vec<CoordinatePoint>,
        l: Layout,
        g: &CellGeometry,
        column: usize,
        row: usize,
    ) -> (r: Color)
        requires
            d.wf(),
            rect.wf(),
            column < l.cell_width,
            row < l.cell_height,
            g.matches(
                rect,
                l,
                self.boundary_factor_min as int,
                self.boundary_unselected.thickness as int,
            ),
        ensures
            r == self.cell_color(*d, rect, selected@, l, column as int, row as int),
    {
        let (x, on_x) = map_axis_exec(
            column,
            l.cell_width,
            g.extent_x,
            g.per_x,
            g.outline,
            rect.left_top.x,
        );
        let (y, on_y) = map_axis_exec(
            row,
            l.cell_height,
            g.extent_y,
            g.per_y,
            g.outline,
            rect.left_top.y,
        );
        let c = match d.lookup_at(x, y) {
            None => self.background,
            Some(c) => if on_x || on_y {
                if contains_point(selected, x, y) {
                    self.boundary_selected
                } else {
                    self.boundary_unselected.color
                }
            } else {
                c
            },
        };
        let c = if self.in_drag_area_exec(x, y) {
            c.darken()
        } else {
            c
        };
        c.remove_alpha()
    }

    fn pixel_exec(
        &self,
        state: &MultimapState,
        rect: ShowRect,
        visible: &Vec<usize>,
        l: Layout,
        g: &CellGeometry,
        width: usize,
        height: usize,
        x: usize,
        y: usize,
    ) -> (r: Color)
        requires
            self.wf(),
            rect.wf(),
            x < width,
            y < height,
            visible@ == visible_prefix(state.to_plot@, self.data@.len() as int),
            forall|i: int| 0 <= i < visible@.len() ==> #[trigger] visible@[i] < self.data@.len(),
            visible@.len() >= 1,
            l == self.layout_spec(width as int, height as int, visible@.len() as int),
            is_grid(visible@.len() as int, l.columns as int, l.rows as int),
            self.reserved_width() <= width,
            g.matches(
                rect,
                l,
                self.boundary_factor_min as int,
                self.boundary_unselected.thickness as int,
            ),
        ensures
            r == self.pixel_color(*state, rect, width as int, height as int, x as int, y as int),
    {
        let colorbar = match &self.colorbar {
            Some(c) => Some(c.thickness),
            None => None,
        };
        proof {
            let count = visible@.len() as int;
            lemma_grid_of(count, l.columns as int, l.rows as int);
            lemma_cell_size_bounds(
                width - self.reserved_width(),
                l.columns as int,
                self.boundary_between_data.thickness as int,
            );
            lemma_cell_size_bounds(height as int, l.rows as int, self.boundary_between_data.thickness as int);
        }
        let kind = pixel_kind_exec(
            l,
            width,
            height,
            self.boundary_between_data.thickness,
            colorbar,
            visible.len(),
            x,
            y,
        );
        match kind {
            PixelKind::Outside => self.background,
            PixelKind::EmptyCell => self.background,
            PixelKind::Line => self.boundary_between_data.color,
            PixelKind::Colorbar => {
                let c = match &self.colorbar {
                    Some(c) => c,
                    None => {
                        proof {
                            assert(false);
                        }
                        return self.background;
                    },
                };
                c.gradient.element_at(height - 1 - y, height).remove_alpha()
            },
            PixelKind::Cell { slot, column, row } => {
                let index = visible[slot];
                let d = &self.data[index].data;
                assert(d.wf());
                self.cell_color_exec(d, rect, &state.selected, l, g, column, row)
            },
        }
    }
}

/// Whether `(x, y)` is one of the selected points.
fn contains_point(selected: &Vec<CoordinatePoint>, x: i128, y: i128) -> (r: bool)
    ensures
        r == selected_contains(selected@, x as int, y as int),
{
    let mut i: usize = 0;
    while i < selected.len()
        invariant
            i <= selected@.len(),
            forall|j: int| 0 <= j < i ==> !(selected@[j].x == x && selected@[j].y == y),
        decreases selected@.len() - i,
    {
        if selected[i].x as i128 == x && selected[i].y as i128 == y {
            return true;
        }
        i = i + 1;
    }
    false
}

impl<Key> ShowMultiMap<Key> {
    /// Builds a renderer from data sets and settings.
    pub fn with_settings(data: Vec<DataWithMetadata<Key>>, settings: ShowMultiMapSettings) -> (r: Self)
        ensures
            r.data@ == data@,
            r.boundary_between_data == settings.boundary_between_data,
            r.colorbar == settings.colorbar,
            r.background == settings.background,
            r.boundary_unselected == settings.boundary_unselected,
            r.boundary_selected == settings.boundary_selected,
            r.boundary_factor_min == settings.boundary_factor_min,
            r.drag_area is None,
    {
        let ShowMultiMapSettings {
            boundary_between_data,
            colorbar,
            background,
            boundary_unselected,
            boundary_selected,
            boundary_factor_min,
        } = settings;
        ShowMultiMap {
            data,
            boundary_between_data,
            colorbar,
            background,
            boundary_unselected,
            boundary_selected,
            boundary_factor_min,
            drag_area: None,
        }
    }

    /// A fresh session: every data set shown, nothing selected, and the
    /// shown rectangle not yet known.
    pub fn default_state(&self) -> (r: MultimapState)
        ensures
            r.wf(),
            r.to_plot@.len() == self.data@.len(),
            forall|i: int| 0 <= i < self.data@.len() ==> #[trigger] r.to_plot@[i],
            r.selected@.len() == 0,
            r.shown_rectangle is None,
    {
        let mut to_plot: Vec<bool> = Vec::new();
        let mut i: usize = 0;
        while i < self.data.len()
            invariant
                i <= self.data@.len(),
                to_plot@.len() == i,
                forall|j: int| 0 <= j < i ==> #[trigger] to_plot@[j],
            decreases self.data@.len() - i,
        {
            to_plot.push(true);
            i = i + 1;
        }
        MultimapState { to_plot, selected: Vec::new(), shown_rectangle: None }
    }

    /// Renders the data sets shown in `state` into a `width` by `height`
    /// raster, row by row. On the first call the shown rectangle is set to
    /// the one that shows all shown data sets.
    pub fn render(&self, width: usize, height: usize, state: &mut MultimapState) -> (r: Result<
        Vec<Color>,
        RenderProblem,
    >)
        requires
            self.wf(),
            old(state).wf(),
            width * height <= usize::MAX,
        ensures
            final(state).wf(),
            final(state).to_plot@ == old(state).to_plot@,
            final(state).selected@ == old(state).selected@,
            final(state).shown_rectangle == (if old(state).shown_rectangle is None
                && self.data@.len() > 0 {
                Some(self.home_rect_spec(old(state).to_plot@))
            } else {
                old(state).shown_rectangle
            }),
            ({
                let visible = visible_prefix(old(state).to_plot@, self.data@.len() as int);
                if self.data@.len() == 0 {
                    r == Err::<Vec<Color>, RenderProblem>(RenderProblem::NoData)
                } else if visible.len() == 0 {
                    r == Err::<Vec<Color>, RenderProblem>(RenderProblem::CountIsZero)
                } else if self.reserved_width() > width {
                    r == Err::<Vec<Color>, RenderProblem>(RenderProblem::WidthSmallerThanColorBar)
                } else {
                    &&& r is Ok
                    &&& r->Ok_0@.len() == width * height
                    &&& forall|i: int|
                        0 <= i < width * height ==> #[trigger] r->Ok_0@[i] == self.pixel_color(
                            *final(state),
                            final(state).shown_rectangle->Some_0,
                            width as int,
                            height as int,
                            i % width as int,
                            i / width as int,
                        )
                }
            }),
    {
        if self.data.len() == 0 {
            return Err(RenderProblem::NoData);
        }
        if state.shown_rectangle.is_none() {
            state.shown_rectangle = Some(self.home_rect(&state.to_plot));
        }
        let rect = match state.shown_rectangle {
            Some(rect) => rect,
            None => {
                proof {
                    assert(false);
                }
                return Err(RenderProblem::NoData);
            },
        };
        let visible = visible_indices(&state.to_plot, self.data.len());
        if visible.len() == 0 {
            return Err(RenderProblem::CountIsZero);
        }
        let l = match self.compute_layout(width, height, visible.len()) {
            Some(l) => l,
            None => {
                return Err(RenderProblem::WidthSmallerThanColorBar);
            },
        };
        let g = self.cell_geometry(rect, l);
        let total = width * height;
        let mut rendered: Vec<Color> = Vec::new();
        let mut i: usize = 0;
        while i < total
            invariant
                self.wf(),
                state.wf(),
                state.shown_rectangle == Some(rect),
                rect.wf(),
                total == width * height,
                i <= total,
                visible@ == visible_prefix(state.to_plot@, self.data@.len() as int),
                forall|j: int| 0 <= j < visible@.len() ==> #[trigger] visible@[j] < self.data@.len(),
                visible@.len() >= 1,
                l == self.layout_spec(width as int, height as int, visible@.len() as int),
                is_grid(visible@.len() as int, l.columns as int, l.rows as int),
                self.reserved_width() <= width,
                g.matches(
                    rect,
                    l,
                    self.boundary_factor_min as int,
                    self.boundary_unselected.thickness as int,
                ),
                rendered@.len() == i,
                forall|j: int|
                    0 <= j < i ==> #[trigger] rendered@[j] == self.pixel_color(
                        *state,
                        rect,
                        width as int,
                        height as int,
                        j % width as int,
                        j / width as int,
                    ),
            decreases total - i,
        {
            proof {
                assert(width > 0) by (nonlinear_arith)
                    requires i < width * height;
                assert(i / width < height as int) by (nonlinear_arith)
                    requires i < width * height, width > 0;
            }
            let x = i % width;
            let y = i / width;
            let c = self.pixel_exec(state, rect, &visible, l, &g, width, height, x, y);
            rendered.push(c);
            i = i + 1;
        }
        Ok(rendered)
    }

    /// Renders like `render`, but always hands back a `width` by `height`
    /// raster: on a problem it is filled with `sentinel`, and the problem is
    /// returned beside it.
    pub fn render_frame(
        &self,
        width: usize,
        height: usize,
        state: &mut MultimapState,
        sentinel: Color,
    ) -> (r: (Vec<Color>, Option<RenderProblem>))
        requires
            self.wf(),
            old(state).wf(),
            width * height <= usize::MAX,
        ensures
            final(state).wf(),
            r.0@.len() == width * height,
            ({
                let visible = visible_prefix(old(state).to_plot@, self.data@.len() as int);
                if self.data@.len() == 0 {
                    r.1 == Some(RenderProblem::NoData)
                } else if visible.len() == 0 {
                    r.1 == Some(RenderProblem::CountIsZero)
                } else if self.reserved_width() > width {
                    r.1 == Some(RenderProblem::WidthSmallerThanColorBar)
                } else {
                    r.1 is None
                }
            }),
            r.1 is Some ==> forall|i: int| 0 <= i < width * height ==> #[trigger] r.0@[i] == sentinel,
            r.1 is None ==> forall|i: int|
                0 <= i < width * height ==> #[trigger] r.0@[i] == self.pixel_color(
                    *final(state),
                    final(state).shown_rectangle->Some_0,
                    width as int,
                    height as int,
                    i % width as int,
                    i / width as int,
                ),
            final(state).shown_rectangle == (if old(state).shown_rectangle is None
                && self.data@.len() > 0 {
                Some(self.home_rect_spec(old(state).to_plot@))
            } else {
                old(state).shown_rectangle
            }),
            final(state).to_plot@ == old(state).to_plot@,
            final(state).selected@ == old(state).selected@,
    {
        match self.render(width, height, state) {
            Ok(image) => (image, None),
            Err(problem) => (vec![sentinel; width * height], Some(problem)),
        }
    }

    /// What a pointer at raster pixel `point` of a raster of `size` points at:
    /// a point of a data set (with or without data), a colorbar value, or nothing.
    pub fn convert_multimap2bitmap(
        &self,
        point: crate::geometry::MultiMapPoint,
        size: [usize; 2],
        state: &MultimapState,
    ) -> (r: MultiMapPosition)
        requires
            self.wf(),
            state.wf(),
        ensures
            r == self.position_spec(*state, size[0] as int, size[1] as int, point.x as int, point.y as int),
    {
        let width = size[0];
        let height = size[1];
        let x = point.x;
        let y = point.y;
        let visible = visible_indices(&state.to_plot, self.data.len());
        if visible.len() == 0 || x >= width || y >= height {
            return MultiMapPosition::NotHovering;
        }
        let l = match self.compute_layout(width, height, visible.len()) {
            Some(l) => l,
            None => {
                return MultiMapPosition::NotHovering;
            },
        };
        let colorbar = match &self.colorbar {
            Some(c) => Some(c.thickness),
            None => None,
        };
        proof {
            let count = visible@.len() as int;
            lemma_grid_of(count, l.columns as int, l.rows as int);
            lemma_cell_size_bounds(
                width - self.reserved_width(),
                l.columns as int,
                self.boundary_between_data.thickness as int,
            );
            lemma_cell_size_bounds(height as int, l.rows as int, self.boundary_between_data.thickness as int);
        }
        let kind = pixel_kind_exec(
            l,
            width,
            height,
            self.boundary_between_data.thickness,
            colorbar,
            visible.len(),
            x,
            y,
        );
        match kind {
            PixelKind::Colorbar => {
                match &self.colorbar {
                    Some(c) => MultiMapPosition::Colorbar(c.gradient.fetch_step(height - y, height)),
                    None => MultiMapPosition::NotHovering,
                }
            },
            PixelKind::Cell { slot, column, row } => {
                let rect = match state.shown_rectangle {
                    Some(rect) => rect,
                    None => {
                        return MultiMapPosition::NotHovering;
                    },
                };
                let index = visible[slot];
                let d = &self.data[index].data;
                assert(d.wf());
                let g = self.cell_geometry(rect, l);
                let (px, _) = map_axis_exec(
                    column,
                    l.cell_width,
                    g.extent_x,
                    g.per_x,
                    g.outline,
                    rect.left_top.x,
                );
                let (py, _) = map_axis_exec(
                    row,
                    l.cell_height,
                    g.extent_y,
                    g.per_y,
                    g.outline,
                    rect.left_top.y,
                );
                if px < i32::MIN as i128 || px > i32::MAX as i128 || py < i32::MIN as i128 || py
                    > i32::MAX as i128 {
                    MultiMapPosition::NotHovering
                } else {
                    let p = CoordinatePoint { x: px as i32, y: py as i32 };
                    if d.lookup_at(px, py).is_some() {
                        MultiMapPosition::Pixel(index, p)
                    } else {
                        MultiMapPosition::NoData(index, p)
                    }
                }
            },
            _ => MultiMapPosition::NotHovering,
        }
    }
}

/// Zooming by `delta` changes an axis of extent `extent`: always when
/// zooming out, and when zooming in only if more than 3 coordinates remain.
pub open spec fn zoom_applies(extent: int, delta: int) -> bool {
    delta < 0 || extent > 3 + 2 * delta
}

/// The selection after clicking `p`: with `additive` the membership of `p`
/// is toggled; otherwise the selection becomes `{p}`, or empty if it was `{p}`.
pub open spec fn selection_after(old: Set<CoordinatePoint>, p: CoordinatePoint, additive: bool) -> Set<
    CoordinatePoint,
> {
    if additive {
        if old.contains(p) {
            old.remove(p)
        } else {
            old.insert(p)
        }
    } else if old == set![p] {
        Set::empty()
    } else {
        set![p]
    }
}

/// The rectangle that a drag from `a` to `b` selects, both corners included.
pub open spec fn drag_rect(a: CoordinatePoint, b: CoordinatePoint) -> (CoordinatePoint, CoordinatePoint) {
    (
        CoordinatePoint {
            x: if a.x < b.x { a.x } else { b.x },
            y: if a.y < b.y { a.y } else { b.y },
        },
        CoordinatePoint {
            x: if a.x > b.x { a.x } else { b.x },
            y: if a.y > b.y { a.y } else { b.y },
        },
    )
}

impl<Key> ShowMultiMap<Key> {
    /// Zooms in by `zoom_increment` coordinates on each side (out if it is
    /// negative). An axis is left as it is where zooming in would leave 3
    /// coordinates or fewer, or where a corner would leave the `i32` range.
    pub fn zoom(&mut self, zoom_increment: i32, shown_rectangle: &mut ShowRect)
        ensures
            *final(self) == *old(self),
            *final(shown_rectangle) == zoomed(*old(shown_rectangle), zoom_increment as int),
            old(shown_rectangle).width() >= 4 ==> final(shown_rectangle).width() >= 4,
            old(shown_rectangle).height() >= 4 ==> final(shown_rectangle).height() >= 4,
            old(shown_rectangle).wf() ==> final(shown_rectangle).wf(),
    {
        let d = zoom_increment as i64;
        let r = *shown_rectangle;
        let extent_x = r.right_bottom.x as i64 - r.left_top.x as i64;
        let extent_y = r.right_bottom.y as i64 - r.left_top.y as i64;
        let lx = r.left_top.x as i64 + d;
        let rx = r.right_bottom.x as i64 - d;
        if (d < 0 || extent_x > 3 + 2 * d) && i32::MIN as i64 <= lx && lx <= i32::MAX as i64
            && i32::MIN as i64 <= rx && rx <= i32::MAX as i64 {
            shown_rectangle.left_top.x = lx as i32;
            shown_rectangle.right_bottom.x = rx as i32;
        }
        let ty = r.left_top.y as i64 + d;
        let by = r.right_bottom.y as i64 - d;
        if (d < 0 || extent_y > 3 + 2 * d) && i32::MIN as i64 <= ty && ty <= i32::MAX as i64
            && i32::MIN as i64 <= by && by <= i32::MAX as i64 {
            shown_rectangle.left_top.y = ty as i32;
            shown_rectangle.right_bottom.y = by as i32;
        }
    }

    /// Moves the shown rectangle by one coordinate in `direction`.
    pub fn translate_keyboard(&mut self, direction: crate::geometry::KeyBoardDirection, shown_rectangle: &mut ShowRect)
        ensures
            *final(self) == *old(self),
            ({
                let (dx, dy) = match direction {
                    crate::geometry::KeyBoardDirection::Up => (0int, -1int),
                    crate::geometry::KeyBoardDirection::Down => (0int, 1int),
                    crate::geometry::KeyBoardDirection::Left => (-1int, 0int),
                    crate::geometry::KeyBoardDirection::Right => (1int, 0int),
                };
                translated(*old(shown_rectangle), *final(shown_rectangle), dx, dy)
            }),
    {
        let (dx, dy): (i32, i32) = match direction {
            crate::geometry::KeyBoardDirection::Up => (0, -1),
            crate::geometry::KeyBoardDirection::Down => (0, 1),
            crate::geometry::KeyBoardDirection::Left => (-1, 0),
            crate::geometry::KeyBoardDirection::Right => (1, 0),
        };
        self.translate(CoordinatePoint { x: dx, y: dy }, shown_rectangle);
    }

    /// Moves both corners of the shown rectangle by `delta`, unless a corner
    /// would leave the `i32` range.
    pub fn translate(&mut self, delta: CoordinatePoint, shown_rectangle: &mut ShowRect)
        ensures
            *final(self) == *old(self),
            translated(*old(shown_rectangle), *final(shown_rectangle), delta.x as int, delta.y as int),
    {
        let r = *shown_rectangle;
        let lx = r.left_top.x as i64 + delta.x as i64;
        let ly = r.left_top.y as i64 + delta.y as i64;
        let rx = r.right_bottom.x as i64 + delta.x as i64;
        let ry = r.right_bottom.y as i64 + delta.y as i64;
        if fits_i32_exec(lx) && fits_i32_exec(ly) && fits_i32_exec(rx) && fits_i32_exec(ry) {
            shown_rectangle.left_top.x = lx as i32;
            shown_rectangle.left_top.y = ly as i32;
            shown_rectangle.right_bottom.x = rx as i32;
            shown_rectangle.right_bottom.y = ry as i32;
        }
    }

    /// Moves the shown rectangle, keeping its extent, so that `pos` lies at
    /// its center; on an odd extent the extra coordinate lies left or above.
    /// The rectangle is left as it is where a corner would leave the `i32` range.
    pub fn center_to(&mut self, pos: &CoordinatePoint, shown_rectangle: &mut ShowRect)
        requires
            old(shown_rectangle).wf(),
        ensures
            *final(self) == *old(self),
            *final(shown_rectangle) == centered(*old(shown_rectangle), *pos),
            final(shown_rectangle).wf(),
            final(shown_rectangle).width() == old(shown_rectangle).width(),
            final(shown_rectangle).height() == old(shown_rectangle).height(),
    {
        let r = *shown_rectangle;
        let dx = r.right_bottom.x as i64 - r.left_top.x as i64;
        let dy = r.right_bottom.y as i64 - r.left_top.y as i64;
        let lx = pos.x as i64 - (dx - dx / 2);
        let ly = pos.y as i64 - (dy - dy / 2);
        let rx = pos.x as i64 + dx / 2;
        let ry = pos.y as i64 + dy / 2;
        if fits_i32_exec(lx) && fits_i32_exec(ly) && fits_i32_exec(rx) && fits_i32_exec(ry) {
            shown_rectangle.left_top.x = lx as i32;
            shown_rectangle.left_top.y = ly as i32;
            shown_rectangle.right_bottom.x = rx as i32;
            shown_rectangle.right_bottom.y = ry as i32;
        }
    }

    /// Clicks point `pos`: with `ctrl_is_pressed` its membership in the
    /// selection is toggled; otherwise the selection becomes just `pos`, or
    /// empty if `pos` was the only selected point.
    pub fn select(
        &mut self,
        pos: &CoordinatePoint,
        ctrl_is_pressed: bool,
        selected: &mut Vec<CoordinatePoint>,
    )
        requires
            old(selected)@.no_duplicates(),
        ensures
            *final(self) == *old(self),
            final(selected)@.no_duplicates(),
            final(selected)@.to_set() == selection_after(old(selected)@.to_set(), *pos, ctrl_is_pressed),
    {
        let ghost before = selected@;
        let position = find_point(selected, pos);
        if ctrl_is_pressed {
            match position {
                Some(i) => {
                    selected.remove(i);
                    proof {
                        lemma_remove_unique(before, i as int);
                    }
                },
                None => {
                    selected.push(*pos);
                    proof {
                        before.lemma_push_to_set_commute(*pos);
                        assert(before.push(*pos).no_duplicates());
                    }
                },
            }
        } else {
            let sole = selected.len() == 1 && position.is_some();
            proof {
                if before.len() == 1 && position is Some {
                    assert(before =~= seq![*pos]);
                    assert(before.to_set() =~= set![*pos]);
                } else if before.to_set() == set![*pos] {
                    assert(before.to_set().contains(*pos));
                    assert(before.contains(*pos));
                    before.unique_seq_to_set();
                    assert(before.len() == 1);
                }
            }
            selected.clear();
            if !sole {
                selected.push(*pos);
                proof {
                    assert(selected@ =~= seq![*pos]);
                    Seq::<CoordinatePoint>::empty().lemma_push_to_set_commute(*pos);
                    assert(seq![*pos] =~= Seq::<CoordinatePoint>::empty().push(*pos));
                    assert(Seq::<CoordinatePoint>::empty().to_set() =~= Set::<CoordinatePoint>::empty());
                    assert(seq![*pos].to_set() =~= set![*pos]);
                }
            } else {
                proof {
                    assert(selected@.to_set() =~= Set::<CoordinatePoint>::empty());
                }
            }
        }
    }

    /// Starts dragging at `pos`.
    pub fn drag_start(&mut self, pos: &CoordinatePoint)
        ensures
            final(self).drag_area == Some(((*pos, *pos), *pos)),
            final(self).data@ == old(self).data@,
    {
        self.drag_area = Some(((*pos, *pos), *pos));
    }

    /// Drags on to `pos`. Returns whether the dragged rectangle changed; with
    /// no drag going on nothing happens and `false` is returned.
    pub fn drag_is_ongoing(&mut self, pos: &CoordinatePoint) -> (r: bool)
        ensures
            final(self).data@ == old(self).data@,
            match old(self).drag_area {
                None => !r && final(self).drag_area is None,
                Some((before, start)) => final(self).drag_area == Some((drag_rect(start, *pos), start))
                    && r == (before != drag_rect(start, *pos)),
            },
    {
        match self.drag_area {
            Some((before, start)) => {
                let lt = CoordinatePoint {
                    x: if start.x < pos.x { start.x } else { pos.x },
                    y: if start.y < pos.y { start.y } else { pos.y },
                };
                let rb = CoordinatePoint {
                    x: if start.x > pos.x { start.x } else { pos.x },
                    y: if start.y > pos.y { start.y } else { pos.y },
                };
                let unchanged = before.0 == lt && before.1 == rb;
                self.drag_area = Some(((lt, rb), start));
                !unchanged
            },
            None => false,
        }
    }

    /// Ends a drag at `pos`. The dragged rectangle, both corners included,
    /// becomes the shown rectangle if it is more than 4 coordinates wide and
    /// high; the drag ends either way.
    pub fn drag_release(&mut self, pos: Option<&CoordinatePoint>, shown_rectangle: &mut ShowRect)
        ensures
            final(self).data@ == old(self).data@,
            final(self).drag_area is None,
            *final(shown_rectangle) == released(
                *old(shown_rectangle),
                old(self).drag_area,
                match pos {
                    Some(p) => Some(*p),
                    None => None,
                },
            ),
            *final(shown_rectangle) == *old(shown_rectangle) || (final(shown_rectangle).right_bottom.x
                > final(shown_rectangle).left_top.x + 3 && final(shown_rectangle).right_bottom.y
                > final(shown_rectangle).left_top.y + 3),
            old(shown_rectangle).wf() ==> final(shown_rectangle).wf(),
    {
        let area = self.drag_area;
        self.drag_area = None;
        if let (Some((_, start)), Some(pos)) = (area, pos) {
            let lx = if start.x < pos.x { start.x } else { pos.x };
            let ly = if start.y < pos.y { start.y } else { pos.y };
            let rx = (if start.x > pos.x { start.x } else { pos.x }) as i64 + 1;
            let ry = (if start.y > pos.y { start.y } else { pos.y }) as i64 + 1;
            if rx - lx as i64 > 4 && ry - ly as i64 > 4 && rx <= i32::MAX as i64 && ry <= i32::MAX
                as i64 {
                shown_rectangle.left_top = ShowPoint { x: lx, y: ly };
                shown_rectangle.right_bottom = ShowPoint { x: rx as i32, y: ry as i32 };
            }
        }
    }

    /// Resets the shown rectangle to the one that shows all shown data sets.
    pub fn home(&self, state: &mut MultimapState)
        requires
            self.wf(),
            old(state).wf(),
        ensures
            final(state).wf(),
            final(state).to_plot@ == old(state).to_plot@,
            final(state).selected@ == old(state).selected@,
            final(state).shown_rectangle == Some(self.home_rect_spec(old(state).to_plot@)),
    {
        state.shown_rectangle = Some(self.home_rect(&state.to_plot));
    }
}

/// `o` zoomed by `d` on each side; see `ShowMultiMap::zoom`.
pub open spec fn zoomed(o: ShowRect, d: int) -> ShowRect {
    let x_applies = zoom_applies(o.width(), d) && fits_i32(o.left_top.x + d) && fits_i32(
        o.right_bottom.x - d,
    );
    let y_applies = zoom_applies(o.height(), d) && fits_i32(o.left_top.y + d) && fits_i32(
        o.right_bottom.y - d,
    );
    ShowRect {
        left_top: ShowPoint {
            x: if x_applies { (o.left_top.x + d) as i32 } else { o.left_top.x },
            y: if y_applies { (o.left_top.y + d) as i32 } else { o.left_top.y },
        },
        right_bottom: ShowPoint {
            x: if x_applies { (o.right_bottom.x - d) as i32 } else { o.right_bottom.x },
            y: if y_applies { (o.right_bottom.y - d) as i32 } else { o.right_bottom.y },
        },
    }
}

/// `o` moved so that `pos` lies at its center; see `ShowMultiMap::center_to`.
pub open spec fn centered(o: ShowRect, pos: CoordinatePoint) -> ShowRect {
    let dx = o.width();
    let dy = o.height();
    let lx = pos.x - (dx - dx / 2);
    let ly = pos.y - (dy - dy / 2);
    let rx = pos.x + dx / 2;
    let ry = pos.y + dy / 2;
    if fits_i32(lx) && fits_i32(ly) && fits_i32(rx) && fits_i32(ry) {
        ShowRect {
            left_top: ShowPoint { x: lx as i32, y: ly as i32 },
            right_bottom: ShowPoint { x: rx as i32, y: ry as i32 },
        }
    } else {
        o
    }
}

/// The shown rectangle after a drag ends at `pos`; see `ShowMultiMap::drag_release`.
pub open spec fn released(
    o: ShowRect,
    drag_area: Option<((CoordinatePoint, CoordinatePoint), CoordinatePoint)>,
    pos: Option<CoordinatePoint>,
) -> ShowRect {
    match (drag_area, pos) {
        (Some((_, start)), Some(p)) => {
            let (lt, rb) = drag_rect(start, p);
            if rb.x + 1 - lt.x > 4 && rb.y + 1 - lt.y > 4 && fits_i32(rb.x + 1) && fits_i32(
                rb.y + 1,
            ) {
                ShowRect {
                    left_top: ShowPoint { x: lt.x, y: lt.y },
                    right_bottom: ShowPoint { x: (rb.x + 1) as i32, y: (rb.y + 1) as i32 },
                }
            } else {
                o
            }
        },
        _ => o,
    }
}

/// `n` is `o` moved by `(dx, dy)`, or `o` itself where a corner would leave the `i32` range.
pub open spec fn translated(o: ShowRect, n: ShowRect, dx: int, dy: int) -> bool {
    if fits_i32(o.left_top.x + dx) && fits_i32(o.left_top.y + dy) && fits_i32(o.right_bottom.x + dx)
        && fits_i32(o.right_bottom.y + dy) {
        &&& n.left_top.x == o.left_top.x + dx
        &&& n.left_top.y == o.left_top.y + dy
        &&& n.right_bottom.x == o.right_bottom.x + dx
        &&& n.right_bottom.y == o.right_bottom.y + dy
    } else {
        n == o
    }
}

fn fits_i32_exec(v: i64) -> (r: bool)
    ensures
        r == fits_i32(v as int),
{
    i32::MIN as i64 <= v && v <= i32::MAX as i64
}

/// The position of `pos` among the selected points, if it is selected.
fn find_point(selected: &Vec<CoordinatePoint>, pos: &CoordinatePoint) -> (r: Option<usize>)
    ensures
        r is Some ==> r->Some_0 < selected@.len() && selected@[r->Some_0 as int] == *pos,
        r is None ==> !selected@.contains(*pos),
{
    let mut i: usize = 0;
    while i < selected.len()
        invariant
            i <= selected@.len(),
            forall|j: int| 0 <= j < i ==> selected@[j] != *pos,
        decreases selected@.len() - i,
    {
        if selected[i] == *pos {
            return Some(i);
        }
        i = i + 1;
    }
    None
}

/// Removing an element of a sequence without duplicates removes it from its set.
proof fn lemma_remove_unique(s: Seq<CoordinatePoint>, i: int)
    requires
        s.no_duplicates(),
        0 <= i < s.len(),
    ensures
        s.remove(i).no_duplicates(),
        s.remove(i).to_set() == s.to_set().remove(s[i]),
{
    let r = s.remove(i);
    assert forall|a: int, b: int| 0 <= a < b < r.len() implies r[a] != r[b] by {
        let sa = if a < i { a } else { a + 1 };
        let sb = if b < i { b } else { b + 1 };
        assert(r[a] == s[sa] && r[b] == s[sb]);
    }
    assert forall|x: CoordinatePoint| r.to_set().contains(x) <==> s.to_set().remove(s[i]).contains(x) by {
        if r.to_set().contains(x) {
            let k = choose|k: int| 0 <= k < r.len() && r[k] == x;
            let sk = if k < i { k } else { k + 1 };
            assert(s[sk] == x);
            assert(sk != i);
        }
        if s.to_set().remove(s[i]).contains(x) {
            let k = choose|k: int| 0 <= k < s.len() && s[k] == x;
            assert(k != i);
            let rk = if k < i { k } else { k - 1 };
            assert(r[rk] == x);
        }
    }
    assert(r.to_set() =~= s.to_set().remove(s[i]));
}

/// Every index in `visible_prefix(to_plot, n)` is below `n`.
pub proof fn lemma_visible_prefix_bounds(to_plot: Seq<bool>, n: int)
    requires
        0 <= n <= usize::MAX,
    ensures
        visible_prefix(to_plot, n).len() <= n,
        forall|i: int|
            0 <= i < visible_prefix(to_plot, n).len() ==> #[trigger] visible_prefix(to_plot, n)[i]
                < n,
    decreases n,
{
    if n > 0 {
        lemma_visible_prefix_bounds(to_plot, n - 1);
        let prev = visible_prefix(to_plot, n - 1);
        if shown(to_plot, n - 1) {
            assert(visible_prefix(to_plot, n) == prev.push((n - 1) as usize));
        }
    }
}

impl<Key> ShowMultiMap<Key> {
    /// Rendering and hit-testing agree on every raster pixel. A pixel of a
    /// cell that is colored from data set `index` at point `(px, py)`, off
    /// the outline, hit-tests to `Pixel(index, (px, py))`. A pixel that shows
    /// the background because that data set has no data there hit-tests to
    /// `NoData(index, (px, py))`, or to `NotHovering` where the point lies
    /// outside the `i32` range. Pixels outside every cell hit-test to
    /// `NotHovering` or to the colorbar.
    pub proof fn lemma_render_hit_test_agree(
        &self,
        state: MultimapState,
        width: usize,
        height: usize,
        x: int,
        y: int,
    )
        requires
            self.wf(),
            state.wf(),
            state.shown_rectangle is Some,
            0 <= x < width,
            0 <= y < height,
            self.reserved_width() <= width,
            visible_prefix(state.to_plot@, self.data@.len() as int).len() > 0,
        ensures
            ({
                let rect = state.shown_rectangle->Some_0;
                let visible = visible_prefix(state.to_plot@, self.data@.len() as int);
                let l = self.layout_spec(width as int, height as int, visible.len() as int);
                let hit = self.position_spec(state, width as int, height as int, x, y);
                let color = self.pixel_color(state, rect, width as int, height as int, x, y);
                match pixel_kind(
                    l,
                    width as int,
                    height as int,
                    self.boundary_between_data.thickness as int,
                    self.colorbar_thickness(),
                    visible.len() as int,
                    x,
                    y,
                ) {
                    PixelKind::Cell { slot, column, row } => {
                        let index = visible[slot as int];
                        let d = self.data@[index as int].data;
                        let (px, py, on_outline) = cell_point(
                            rect,
                            l.cell_width as int,
                            l.cell_height as int,
                            self.boundary_factor_min as int,
                            self.boundary_unselected.thickness as int,
                            column as int,
                            row as int,
                        );
                        let shade = |c: Color|
                            if self.in_drag_area(px, py) {
                                c.darkened_spec()
                            } else {
                                c
                            };
                        &&& (d.color_at(px, py) is Some && !on_outline) ==> color == shade(
                            d.color_at(px, py)->Some_0,
                        ).opaque_spec() && hit == MultiMapPosition::Pixel(
                            index,
                            CoordinatePoint { x: px as i32, y: py as i32 },
                        )
                        &&& d.color_at(px, py) is None ==> color == shade(self.background).opaque_spec()
                            && (hit == MultiMapPosition::NoData(
                            index,
                            CoordinatePoint { x: px as i32, y: py as i32 },
                        ) || hit == MultiMapPosition::NotHovering)
                    },
                    PixelKind::Colorbar => hit is Colorbar,
                    _ => hit == MultiMapPosition::NotHovering,
                }
            }),
    {
        let visible = visible_prefix(state.to_plot@, self.data@.len() as int);
        assert(self.data@.len() == self.data.len());
        lemma_visible_prefix_bounds(state.to_plot@, self.data@.len() as int);
        let l = self.layout_spec(width as int, height as int, visible.len() as int);
        let kind = pixel_kind(
            l,
            width as int,
            height as int,
            self.boundary_between_data.thickness as int,
            self.colorbar_thickness(),
            visible.len() as int,
            x,
            y,
        );
        let (c, r) = lemma_grid_exists(visible.len() as int);
        lemma_grid_of(visible.len() as int, c, r);
        let count = visible.len() as int;
        assert(c <= count && r <= count) by (nonlinear_arith)
            requires count >= 1, c >= 1, r >= 1, (c - 1) * (c - 1) < count, (r - 1) * c < count;
        lemma_cell_size_bounds(
            width - self.reserved_width(),
            c,
            self.boundary_between_data.thickness as int,
        );
        lemma_cell_size_bounds(height as int, r, self.boundary_between_data.thickness as int);
        if let PixelKind::Cell { slot, column, row } = kind {
            let line = self.boundary_between_data.thickness as int;
            let pitch_x = l.cell_width + line;
            let pitch_y = l.cell_height + line;
            let avail = width - self.reserved_width();
            assert(l.columns == c && l.rows == r);
            assert(l.cell_width == cell_size(avail, c, line));
            assert(l.plot_width == plot_size(avail, c, line));
            assert(l.cell_height == cell_size(height as int, r, line));
            assert(l.plot_height == plot_size(height as int, r, line));
            assert(x < l.plot_width && y < l.plot_height);
            if pitch_x == 0 {
                assert(c * cell_size(avail, c, line) + line * (c - 1) == 0) by (nonlinear_arith)
                    requires cell_size(avail, c, line) == 0, line == 0;
                assert(plot_size(avail, c, line) == 0);
            }
            if pitch_y == 0 {
                assert(r * cell_size(height as int, r, line) + line * (r - 1) == 0) by (nonlinear_arith)
                    requires cell_size(height as int, r, line) == 0, line == 0;
                assert(plot_size(height as int, r, line) == 0);
            }
            assert((y / pitch_y) * l.columns + x / pitch_x >= 0) by (nonlinear_arith)
                requires y >= 0, x >= 0, pitch_x > 0, pitch_y > 0, l.columns >= 0;
            assert(slot < visible.len());
            let index = visible[slot as int];
            assert(self.data@[index as int].data.wf());
        }
    }
}

impl MultiMapPosition {
    pub open spec fn get_pos_spec(&self) -> Option<CoordinatePoint> {
        match *self {
            MultiMapPosition::NoData(_, p) => Some(p),
            MultiMapPosition::Pixel(_, p) => Some(p),
            _ => None,
        }
    }

    /// The data point under the pointer, if it is over a cell.
    pub fn get_pos(&self) -> (r: Option<CoordinatePoint>)
        ensures
            r == self.get_pos_spec(),
    {
        match self {
            MultiMapPosition::NoData(_, p) => Some(*p),
            MultiMapPosition::Pixel(_, p) => Some(*p),
            _ => None,
        }
    }

    /// The index of the data set under the pointer, if it is over a cell.
    pub fn get_key(&self) -> (r: Option<usize>)
        ensures
            r == match *self {
                MultiMapPosition::NoData(i, _) => Some(i),
                MultiMapPosition::Pixel(i, _) => Some(i),
                _ => None,
            },
    {
        match self {
            MultiMapPosition::NoData(i, _) => Some(*i),
            MultiMapPosition::Pixel(i, _) => Some(*i),
            _ => None,
        }
    }
}

} // verus!
