use vstd::prelude::*;

use crate::colors::Color;
use crate::data::Data;
use crate::font::{labels_drawn, lemma_labels_drawn_push, BitMapText, Placement};
use crate::geometry::ShowRect;
use crate::layout::is_grid;
use crate::multimap::{visible_prefix, Layout, MultimapState, ShowMultiMap};

verus! {

/// `index * (cell + line)`, if it fits in a `usize`.
pub open spec fn scaled_spec(index: int, cell: int, line: int) -> Option<usize> {
    if index * (cell + line) <= usize::MAX {
        Some((index * (cell + line)) as usize)
    } else {
        None
    }
}

/// `start + margin + index * per_point + inset`, if it fits in a `usize`.
pub open spec fn point_origin_spec(start: int, margin: int, index: int, per_point: int, inset: int) -> Option<
    usize,
> {
    if start + margin + index * per_point + inset <= usize::MAX {
        Some((start + margin + index * per_point + inset) as usize)
    } else {
        None
    }
}

/// Where a title `title_width` pixels wide is drawn in cell `slot`; see `title_origin`.
pub open spec fn title_origin_spec(l: Layout, line: int, slot: int, title_width: int) -> Option<(usize, usize)> {
    match (
        scaled_spec(slot % l.columns as int, l.cell_width as int, line),
        scaled_spec(slot / l.columns as int, l.cell_height as int, line),
    ) {
        (Some(x), Some(y)) => {
            let free = if l.cell_width > title_width {
                l.cell_width - title_width
            } else {
                0
            };
            if x + free / 2 <= usize::MAX {
                Some(((x + free / 2) as usize, y))
            } else {
                None
            }
        },
        _ => None,
    }
}

/// Where corner label `corner` is drawn in cell `slot`; see `corner_origin`.
pub open spec fn corner_origin_spec(l: Layout, line: int, slot: int, corner: int, width: int, height: int) -> Option<
    (usize, usize),
> {
    match (
        scaled_spec(slot % l.columns as int, l.cell_width as int, line),
        scaled_spec(slot / l.columns as int, l.cell_height as int, line),
    ) {
        (Some(x), Some(y)) => {
            let dx = if corner >= 2 && l.cell_width > width {
                l.cell_width - width
            } else {
                0
            };
            let dy = if corner % 2 == 1 && l.cell_height > height {
                l.cell_height - height
            } else {
                0
            };
            if x + dx <= usize::MAX && y + dy <= usize::MAX {
                Some(((x + dx) as usize, (y + dy) as usize))
            } else {
                None
            }
        },
        _ => None,
    }
}

/// The first title rendering from index `k` on that fits a cell `cell_width` wide.
pub open spec fn first_title(candidates: Seq<Option<BitMapText>>, cell_width: int, k: int) -> Option<usize>
    decreases candidates.len() - k,
{
    if k < 0 || k >= candidates.len() {
        None
    } else if candidates[k] is Some && title_fits(candidates[k]->Some_0, cell_width) {
        Some(k as usize)
    } else {
        first_title(candidates, cell_width, k + 1)
    }
}

/// The first rendering from index `k` on that is narrower than `thickness`.
pub open spec fn first_narrow(candidates: Seq<BitMapText>, thickness: int, k: int) -> Option<usize>
    decreases candidates.len() - k,
{
    if k < 0 || k >= candidates.len() {
        None
    } else if candidates[k].width < thickness {
        Some(k as usize)
    } else {
        first_narrow(candidates, thickness, k + 1)
    }
}

/// A title fits a cell if it is narrower than 80% of the cell.
pub open spec fn title_fits(b: BitMapText, cell_width: int) -> bool {
    b.width < cell_width * 8 / 10
}

/// The first title rendering that fits a cell `cell_width` pixels wide, if any.
pub fn choose_title(candidates: &Vec<Option<BitMapText>>, cell_width: usize) -> (r: Option<usize>)
    ensures
        r is Some ==> r->Some_0 < candidates@.len() && candidates@[r->Some_0 as int] is Some
            && title_fits(candidates@[r->Some_0 as int]->Some_0, cell_width as int),
        forall|j: int|
            0 <= j < candidates@.len() && (r is None || j < r->Some_0) ==> !(
            #[trigger] candidates@[j] is Some && title_fits(candidates@[j]->Some_0, cell_width as int)),
        r == first_title(candidates@, cell_width as int, 0),
{
    let limit = (cell_width as u128 * 8 / 10) as i128;
    let mut i: usize = 0;
    while i < candidates.len()
        invariant
            i <= candidates@.len(),
            limit == cell_width * 8 / 10,
            first_title(candidates@, cell_width as int, 0) == first_title(
                candidates@,
                cell_width as int,
                i as int,
            ),
            forall|j: int|
                0 <= j < i ==> !(#[trigger] candidates@[j] is Some && title_fits(
                    candidates@[j]->Some_0,
                    cell_width as int,
                )),
        decreases candidates@.len() - i,
    {
        if let Some(b) = &candidates[i] {
            if (b.width as i128) < limit {
                return Some(i);
            }
        }
        i = i + 1;
    }
    None
}

/// The first colorbar label rendering that is narrower than the colorbar, if any.
pub fn choose_colorbar_label(candidates: &Vec<BitMapText>, thickness: usize) -> (r: Option<usize>)
    ensures
        r is Some ==> r->Some_0 < candidates@.len() && candidates@[r->Some_0 as int].width
            < thickness,
        forall|j: int|
            0 <= j < candidates@.len() && (r is None || j < r->Some_0) ==> #[trigger] candidates@[j].width
                >= thickness,
        r == first_narrow(candidates@, thickness as int, 0),
{
    let mut i: usize = 0;
    while i < candidates.len()
        invariant
            i <= candidates@.len(),
            first_narrow(candidates@, thickness as int, 0) == first_narrow(candidates@, thickness as int, i as int),
            forall|j: int| 0 <= j < i ==> #[trigger] candidates@[j].width >= thickness,
        decreases candidates@.len() - i,
    {
        if (candidates[i].width as i128) < thickness as i128 {
            return Some(i);
        }
        i = i + 1;
    }
    None
}

/// The top row of colorbar label `i` of `count` (0 at the top), `label_height`
/// rows high, in a raster `height` rows high: centered on row
/// `height * i / (count - 1)` and moved to lie wholly on the raster.
pub open spec fn colorbar_label_top(i: int, count: int, height: int, label_height: int) -> int {
    let center = height * i / (count - 1);
    let top = center - label_height / 2;
    if top < 0 {
        0
    } else if top > height - label_height {
        height - label_height
    } else {
        top
    }
}

/// See `colorbar_label_top`.
pub fn colorbar_label_position(i: usize, count: usize, height: usize, label_height: i32) -> (r: usize)
    requires
        2 <= count,
        i < count,
        0 <= label_height < height,
    ensures
        r == colorbar_label_top(i as int, count as int, height as int, label_height as int),
        r + label_height <= height,
{
    proof {
        crate::geometry::lemma_product_fits(height as int, i as int);
        assert((height as int) * (i as int) / ((count - 1) as int) <= height) by (nonlinear_arith)
            requires i <= count - 1, count >= 2;
    }
    let center = (height as u128 * i as u128 / (count - 1) as u128) as i128;
    let top = center - (label_height / 2) as i128;
    if top < 0 {
        0
    } else if top > height as i128 - label_height as i128 {
        height - label_height as usize
    } else {
        top as usize
    }
}

impl<Key> ShowMultiMap<Key> {
    /// The title drawn in cell `slot` for data set `d`: the first rendering
    /// that fits, at `title_origin`.
    pub open spec fn title_placements(&self, d: Data, l: Layout, slot: int) -> Seq<Placement> {
        let t = d.overlay.font.background_is_transparent;
        match first_title(d.overlay.title_bitmaps@, l.cell_width as int, 0) {
            Some(k) => match d.overlay.title_bitmaps@[k as int] {
                Some(b) => match title_origin_spec(
                    l,
                    self.boundary_between_data.thickness as int,
                    slot,
                    b.width as int,
                ) {
                    Some((x, y)) => seq![(b, x as int, y as int, t)],
                    None => seq![],
                },
                None => seq![],
            },
            None => seq![],
        }
    }

    /// The title and point labels drawn in cell `slot`.
    pub open spec fn slot_placements(&self, state: MultimapState, l: Layout, slot: int) -> Seq<Placement> {
        let visible = visible_prefix(state.to_plot@, self.data@.len() as int);
        let d = self.data@[visible[slot] as int].data;
        let rect = state.shown_rectangle->Some_0;
        let line = self.boundary_between_data.thickness as int;
        match (
            scaled_spec(slot % l.columns as int, l.cell_width as int, line),
            scaled_spec(slot / l.columns as int, l.cell_height as int, line),
        ) {
            (Some(cell_x), Some(cell_y)) => {
                let per_x = (l.cell_width as int) / rect.width();
                let per_y = (l.cell_height as int) / rect.height();
                self.title_placements(d, l, slot) + if per_x > 0 && per_y > 0 {
                    point_placements(
                        d,
                        rect,
                        cell_x as int,
                        cell_y as int,
                        per_x,
                        per_y,
                        ((l.cell_width as int) % per_x + 1) / 2,
                        ((l.cell_height as int) % per_y + 1) / 2,
                        d.overlay.label_count(),
                    )
                } else {
                    seq![]
                }
            },
            _ => seq![],
        }
    }

    /// The titles and point labels drawn in the first `n` cells, in order.
    pub open spec fn title_and_point_placements(&self, state: MultimapState, l: Layout, n: int) -> Seq<
        Placement,
    >
        decreases n,
    {
        if n <= 0 {
            seq![]
        } else {
            self.title_and_point_placements(state, l, n - 1) + self.slot_placements(state, l, n - 1)
        }
    }

    /// Draws, into a raster `width` pixels wide with layout `l`, each shown
    /// data set's title (the first of its renderings that fits, centered at the
    /// top of its cell) and, where points are drawn at least one pixel wide
    /// and high, the point labels inside the shown rectangle that fit into a
    /// point, centered on it.
    pub fn draw_titles_and_point_labels(
        &self,
        rendered: &mut Vec<Color>,
        width: usize,
        state: &MultimapState,
        l: Layout,
    )
        requires
            self.wf(),
            state.wf(),
            width > 0,
            state.shown_rectangle is Some,
        ensures
            l.columns == 0 ==> final(rendered)@ == old(rendered)@,
            l.columns > 0 ==> final(rendered)@ == labels_drawn(
                old(rendered)@,
                self.title_and_point_placements(
                    *state,
                    l,
                    visible_prefix(state.to_plot@, self.data@.len() as int).len() as int,
                ),
                width as int,
                self.background,
            ),
    {
        let ghost start = rendered@;
        let rect = match state.shown_rectangle {
            Some(r) => r,
            None => {
                return;
            },
        };
        if l.columns == 0 {
            return;
        }
        let visible = crate::multimap::visible_indices(&state.to_plot, self.data.len());
        let line = self.boundary_between_data.thickness;
        let extent_x = (rect.right_bottom.x as i64 - rect.left_top.x as i64) as u64;
        let extent_y = (rect.right_bottom.y as i64 - rect.left_top.y as i64) as u64;
        let per_x = (l.cell_width as u128 / extent_x as u128) as usize;
        let per_y = (l.cell_height as u128 / extent_y as u128) as usize;
        let mut slot: usize = 0;
        while slot < visible.len()
            invariant
                self.wf(),
                width > 0,
                l.columns > 0,
                state.shown_rectangle == Some(rect),
                line == self.boundary_between_data.thickness,
                per_x == (l.cell_width as int) / rect.width(),
                per_y == (l.cell_height as int) / rect.height(),
                slot <= visible@.len(),
                visible@ == visible_prefix(state.to_plot@, self.data@.len() as int),
                forall|j: int| 0 <= j < visible@.len() ==> #[trigger] visible@[j] < self.data@.len(),
                rendered@ == labels_drawn(
                    start,
                    self.title_and_point_placements(*state, l, slot as int),
                    width as int,
                    self.background,
                ),
            decreases visible@.len() - slot,
        {
            let d = &self.data[visible[slot]].data;
            assert(d.wf());
            let ghost base = self.title_and_point_placements(*state, l, slot as int);
            let origin = (
                scaled(slot % l.columns, l.cell_width, line),
                scaled(slot / l.columns, l.cell_height, line),
            );
            if let (Some(cell_x), Some(cell_y)) = origin {
                let transparent = d.overlay.font.background_is_transparent;
                let ghost titles = self.title_placements(*d, l, slot as int);
                match choose_title(&d.overlay.title_bitmaps, l.cell_width) {
                    Some(k) => {
                        match &d.overlay.title_bitmaps[k] {
                            Some(b) => {
                                match title_origin(l, line, slot, b.width) {
                                    Some((x, y)) => {
                                        let ghost before = rendered@;
                                        b.draw(rendered, x, y, width, transparent, self.background);
                                        proof {
                                            lemma_labels_drawn_push(start, base, (*b, x as int, y as int, transparent), width as int, self.background);
                                            assert(base + titles =~= base.push((*b, x as int, y as int, transparent)));
                                        }
                                    },
                                    None => {
                                        assert(base + titles =~= base);
                                    },
                                }
                            },
                            None => {
                                assert(base + titles =~= base);
                            },
                        }
                    },
                    None => {
                        assert(base + titles =~= base);
                    },
                }
                if per_x > 0 && per_y > 0 {
                    let ox = (l.cell_width % per_x + 1) / 2;
                    let oy = (l.cell_height % per_y + 1) / 2;
                    let mut n: usize = 0;
                    while n < d.overlay.overlay_count()
                        invariant
                            d.wf(),
                            width > 0,
                            per_x > 0,
                            per_y > 0,
                            n <= d.overlay.label_count(),
                            transparent == d.overlay.font.background_is_transparent,
                            state.shown_rectangle == Some(rect),
                            rendered@ == labels_drawn(
                                start,
                                base + titles + point_placements(
                                    *d,
                                    rect,
                                    cell_x as int,
                                    cell_y as int,
                                    per_x as int,
                                    per_y as int,
                                    ox as int,
                                    oy as int,
                                    n as int,
                                ),
                                width as int,
                                self.background,
                            ),
                        decreases d.overlay.label_count() - n,
                    {
                        let ghost done = base + titles + point_placements(
                            *d,
                            rect,
                            cell_x as int,
                            cell_y as int,
                            per_x as int,
                            per_y as int,
                            ox as int,
                            oy as int,
                            n as int,
                        );
                        let (pos, b) = d.overlay.overlay(n);
                        assert(b.wf());
                        if rect.left_top.x <= pos.x && pos.x < rect.right_bottom.x && rect.left_top.y
                            <= pos.y && pos.y < rect.right_bottom.y && b.width as usize <= per_x
                            && b.height as usize <= per_y {
                            let dx = (pos.x as i64 - rect.left_top.x as i64) as usize;
                            let dy = (pos.y as i64 - rect.left_top.y as i64) as usize;
                            let x = point_origin(cell_x, ox, dx, per_x, (per_x - b.width as usize) / 2);
                            let y = point_origin(cell_y, oy, dy, per_y, (per_y - b.height as usize) / 2);
                            proof {
                                assert(dx as int == pos.x - rect.left_top.x);
                                assert(dy as int == pos.y - rect.left_top.y);
                            }
                            if let (Some(x), Some(y)) = (x, y) {
                                b.draw(rendered, x, y, width, transparent, self.background);
                                proof {
                                    let pp = point_placements(
                                        *d,
                                        rect,
                                        cell_x as int,
                                        cell_y as int,
                                        per_x as int,
                                        per_y as int,
                                        ox as int,
                                        oy as int,
                                        n as int,
                                    );
                                    assert(point_placements(
                                        *d,
                                        rect,
                                        cell_x as int,
                                        cell_y as int,
                                        per_x as int,
                                        per_y as int,
                                        ox as int,
                                        oy as int,
                                        n + 1,
                                    ) == pp.push((*b, x as int, y as int, transparent)));
                                    lemma_labels_drawn_push(start, done, (*b, x as int, y as int, transparent), width as int, self.background);
                                    assert(done.push((*b, x as int, y as int, transparent)) =~= base + titles
                                        + point_placements(
                                        *d,
                                        rect,
                                        cell_x as int,
                                        cell_y as int,
                                        per_x as int,
                                        per_y as int,
                                        ox as int,
                                        oy as int,
                                        n + 1,
                                    ));
                                }
                            } else {
                                assert(done =~= base + titles + point_placements(
                                    *d,
                                    rect,
                                    cell_x as int,
                                    cell_y as int,
                                    per_x as int,
                                    per_y as int,
                                    ox as int,
                                    oy as int,
                                    n + 1,
                                ));
                            }
                        } else {
                            assert(done =~= base + titles + point_placements(
                                *d,
                                rect,
                                cell_x as int,
                                cell_y as int,
                                per_x as int,
                                per_y as int,
                                ox as int,
                                oy as int,
                                n + 1,
                            ));
                        }
                        n = n + 1;
                    }
                    proof {
                        assert(base + titles + point_placements(
                            *d,
                            rect,
                            cell_x as int,
                            cell_y as int,
                            per_x as int,
                            per_y as int,
                            ox as int,
                            oy as int,
                            d.overlay.label_count(),
                        ) =~= self.title_and_point_placements(*state, l, slot + 1));
                    }
                } else {
                    assert(base + titles =~= self.title_and_point_placements(*state, l, slot + 1));
                }
            } else {
                assert(base =~= self.title_and_point_placements(*state, l, slot + 1));
            }
            slot = slot + 1;
        }
    }
}

/// The point labels among the first `n` labels of `d` that are drawn: those
/// inside the shown rectangle that fit into one point, centered on it.
pub open spec fn point_placements(
    d: Data,
    rect: ShowRect,
    cell_x: int,
    cell_y: int,
    per_x: int,
    per_y: int,
    margin_x: int,
    margin_y: int,
    n: int,
) -> Seq<Placement>
    decreases n,
{
    if n <= 0 {
        seq![]
    } else {
        let prev = point_placements(d, rect, cell_x, cell_y, per_x, per_y, margin_x, margin_y, n - 1);
        let pos = d.overlay.label_point(n - 1);
        let b = d.overlay.label_bitmap(n - 1);
        let t = d.overlay.font.background_is_transparent;
        if rect.contains(pos.x as int, pos.y as int) && b.width <= per_x && b.height <= per_y {
            match (
                point_origin_spec(cell_x, margin_x, pos.x - rect.left_top.x, per_x, (per_x - b.width) / 2),
                point_origin_spec(cell_y, margin_y, pos.y - rect.left_top.y, per_y, (per_y - b.height) / 2),
            ) {
                (Some(x), Some(y)) => prev.push((b, x as int, y as int, t)),
                _ => prev,
            }
        } else {
            prev
        }
    }
}

/// The pixel where cell `slot` of layout `l` starts, cells laid out row by
/// row with lines `line` pixels thick between them.
pub open spec fn cell_origin(l: Layout, line: int, slot: int) -> (int, int) {
    (
        (slot % l.columns as int) * (l.cell_width + line),
        (slot / l.columns as int) * (l.cell_height + line),
    )
}

/// Where a title `title_width` pixels wide is drawn in cell `slot`: centered
/// at the top of the cell; `None` past the `usize` range.
pub fn title_origin(l: Layout, line: usize, slot: usize, title_width: i32) -> (r: Option<(usize, usize)>)
    requires
        l.columns > 0,
        title_width >= 0,
    ensures
        ({
            let (x, y) = cell_origin(l, line as int, slot as int);
            let free = if l.cell_width > title_width {
                l.cell_width - title_width
            } else {
                0
            };
            &&& r is Some <==> (x + free / 2 <= usize::MAX && y <= usize::MAX)
            &&& r is Some ==> (r->Some_0.0 as int, r->Some_0.1 as int) == (x + free / 2, y)
        }),
        r == title_origin_spec(l, line as int, slot as int, title_width as int),
{
    let x = scaled(slot % l.columns, l.cell_width, line);
    let y = scaled(slot / l.columns, l.cell_height, line);
    match (x, y) {
        (Some(x), Some(y)) => {
            let free = l.cell_width.saturating_sub(title_width as usize);
            match x.checked_add(free / 2) {
                Some(x) => Some((x, y)),
                None => None,
            }
        },
        _ => None,
    }
}

/// Where a corner label `width` by `height` pixels is drawn in cell `slot`:
/// corner 0 at the left top, 1 at the left bottom, 2 at the right top and 3 at
/// the right bottom of the cell; `None` past the `usize` range.
pub fn corner_origin(l: Layout, line: usize, slot: usize, corner: usize, width: i32, height: i32) -> (r:
    Option<(usize, usize)>)
    requires
        l.columns > 0,
        corner < 4,
        width >= 0,
        height >= 0,
    ensures
        ({
            let (x, y) = cell_origin(l, line as int, slot as int);
            let right = if l.cell_width > width {
                l.cell_width - width
            } else {
                0
            };
            let bottom = if l.cell_height > height {
                l.cell_height - height
            } else {
                0
            };
            let dx = if corner >= 2 {
                right
            } else {
                0
            };
            let dy = if corner % 2 == 1 {
                bottom
            } else {
                0
            };
            &&& r is Some <==> (x + dx <= usize::MAX && y + dy <= usize::MAX)
            &&& r is Some ==> (r->Some_0.0 as int, r->Some_0.1 as int) == (
                x + if corner >= 2 {
                    right
                } else {
                    0
                },
                y + if corner % 2 == 1 {
                    bottom
                } else {
                    0
                },
            )
        }),
        r == corner_origin_spec(l, line as int, slot as int, corner as int, width as int, height as int),
{
    let x = scaled(slot % l.columns, l.cell_width, line);
    let y = scaled(slot / l.columns, l.cell_height, line);
    match (x, y) {
        (Some(x), Some(y)) => {
            let dx = if corner >= 2 {
                l.cell_width.saturating_sub(width as usize)
            } else {
                0
            };
            let dy = if corner % 2 == 1 {
                l.cell_height.saturating_sub(height as usize)
            } else {
                0
            };
            match (x.checked_add(dx), y.checked_add(dy)) {
                (Some(x), Some(y)) => Some((x, y)),
                _ => None,
            }
        },
        _ => None,
    }
}

/// `index * (cell + line)`: where cell `index` of a row or column starts.
pub fn scaled(index: usize, cell: usize, line: usize) -> (r: Option<usize>)
    ensures
        r is Some <==> index * (cell + line) <= usize::MAX,
        r is Some ==> r->Some_0 == index * (cell + line),
        r == scaled_spec(index as int, cell as int, line as int),
{
    match cell.checked_add(line) {
        Some(pitch) => index.checked_mul(pitch),
        None => {
            proof {
                if index > 0 {
                    assert(index * (cell + line) >= cell + line) by (nonlinear_arith)
                        requires index >= 1, cell + line >= 0;
                }
            }
            if index == 0 {
                Some(0)
            } else {
                None
            }
        },
    }
}

/// `start + margin + index * per_point + inset`: where a label is drawn
/// inside point `index` of a cell.
pub fn point_origin(start: usize, margin: usize, index: usize, per_point: usize, inset: usize) -> (r: Option<usize>)
    ensures
        r is Some <==> start + margin + index * per_point + inset <= usize::MAX,
        r is Some ==> r->Some_0 == start + margin + index * per_point + inset,
        r == point_origin_spec(start as int, margin as int, index as int, per_point as int, inset as int),
{
    proof {
        assert(index * per_point >= 0) by (nonlinear_arith)
            requires index >= 0, per_point >= 0;
    }
    match index.checked_mul(per_point) {
        Some(p) => match start.checked_add(margin) {
            Some(a) => match a.checked_add(p) {
                Some(b) => b.checked_add(inset),
                None => None,
            },
            None => None,
        },
        None => None,
    }
}

/// The renderings of the coordinates of the four corners of the shown
/// rectangle; see `ShowRect::corner_coordinates`.
pub struct CornerLabels {
    /// Label of the left top corner
    pub left_top: Option<BitMapText>,
    /// Label of the left bottom corner
    pub left_bottom: Option<BitMapText>,
    /// Label of the right top corner
    pub right_top: Option<BitMapText>,
    /// Label of the right bottom corner
    pub right_bottom: Option<BitMapText>,
}

impl CornerLabels {
    pub open spec fn wf(&self) -> bool {
        &&& self.left_top is Some ==> self.left_top->Some_0.wf()
        &&& self.left_bottom is Some ==> self.left_bottom->Some_0.wf()
        &&& self.right_top is Some ==> self.right_top->Some_0.wf()
        &&& self.right_bottom is Some ==> self.right_bottom->Some_0.wf()
    }
}

impl crate::geometry::ShowRect {
    /// The coordinates of the last shown points at the four corners: left top,
    /// left bottom, right top and right bottom.
    pub fn corner_coordinates(&self) -> (r: [crate::geometry::CoordinatePoint; 4])
        requires
            self.wf(),
        ensures
            r[0].x == self.left_top.x && r[0].y == self.left_top.y,
            r[1].x == self.left_top.x && r[1].y == self.right_bottom.y - 1,
            r[2].x == self.right_bottom.x - 1 && r[2].y == self.left_top.y,
            r[3].x == self.right_bottom.x - 1 && r[3].y == self.right_bottom.y - 1,
    {
        let right = self.right_bottom.x - 1;
        let bottom = self.right_bottom.y - 1;
        [
            crate::geometry::CoordinatePoint { x: self.left_top.x, y: self.left_top.y },
            crate::geometry::CoordinatePoint { x: self.left_top.x, y: bottom },
            crate::geometry::CoordinatePoint { x: right, y: self.left_top.y },
            crate::geometry::CoordinatePoint { x: right, y: bottom },
        ]
    }
}

impl<Key> ShowMultiMap<Key> {
    /// The corner labels drawn in cell `slot`, if its data set shows coordinates.
    pub open spec fn corner_slot_placements(
        &self,
        state: MultimapState,
        l: Layout,
        labels: Seq<CornerLabels>,
        slot: int,
    ) -> Seq<Placement> {
        let visible = visible_prefix(state.to_plot@, self.data@.len() as int);
        let d = self.data@[visible[slot] as int].data;
        if d.overlay.show_coordinates {
            corner_placements(
                l,
                self.boundary_between_data.thickness as int,
                slot,
                labels[slot],
                d.overlay.font.background_is_transparent,
                4,
            )
        } else {
            seq![]
        }
    }

    /// The corner labels drawn in the first `n` cells, in order.
    pub open spec fn all_corner_placements(
        &self,
        state: MultimapState,
        l: Layout,
        labels: Seq<CornerLabels>,
        n: int,
    ) -> Seq<Placement>
        decreases n,
    {
        if n <= 0 {
            seq![]
        } else {
            self.all_corner_placements(state, l, labels, n - 1) + self.corner_slot_placements(
                state,
                l,
                labels,
                n - 1,
            )
        }
    }

    /// Draws the corner labels `labels[slot]` into the cell `slot` of each
    /// shown data set that shows its coordinates, at `corner_origin`: at the
    /// cell's left top, left bottom, right top and right bottom corner.
    pub fn draw_corner_labels(
        &self,
        rendered: &mut Vec<Color>,
        width: usize,
        state: &MultimapState,
        l: Layout,
        labels: &Vec<CornerLabels>,
    )
        requires
            self.wf(),
            width > 0,
            forall|i: int| 0 <= i < labels@.len() ==> (#[trigger] labels@[i]).wf(),
        ensures
            l.columns == 0 ==> final(rendered)@ == old(rendered)@,
            l.columns > 0 ==> final(rendered)@ == labels_drawn(
                old(rendered)@,
                self.all_corner_placements(
                    *state,
                    l,
                    labels@,
                    min_int(
                        visible_prefix(state.to_plot@, self.data@.len() as int).len() as int,
                        labels@.len() as int,
                    ),
                ),
                width as int,
                self.background,
            ),
    {
        let ghost start = rendered@;
        if l.columns == 0 {
            return;
        }
        let visible = crate::multimap::visible_indices(&state.to_plot, self.data.len());
        let line = self.boundary_between_data.thickness;
        let mut slot: usize = 0;
        while slot < visible.len() && slot < labels.len()
            invariant
                self.wf(),
                width > 0,
                l.columns > 0,
                line == self.boundary_between_data.thickness,
                slot <= visible@.len(),
                slot <= labels@.len(),
                visible@ == visible_prefix(state.to_plot@, self.data@.len() as int),
                forall|j: int| 0 <= j < visible@.len() ==> #[trigger] visible@[j] < self.data@.len(),
                forall|i: int| 0 <= i < labels@.len() ==> (#[trigger] labels@[i]).wf(),
                rendered@ == labels_drawn(
                    start,
                    self.all_corner_placements(*state, l, labels@, slot as int),
                    width as int,
                    self.background,
                ),
            decreases visible@.len() - slot,
        {
            let d = &self.data[visible[slot]].data;
            let ghost base = self.all_corner_placements(*state, l, labels@, slot as int);
            if d.overlay.show_coordinates {
                let transparent = d.overlay.font.background_is_transparent;
                let corners = &labels[slot];
                assert(corners.wf());
                let mut corner: usize = 0;
                while corner < 4
                    invariant
                        corner <= 4,
                        width > 0,
                        l.columns > 0,
                        corners.wf(),
                        rendered@ == labels_drawn(
                            start,
                            base + corner_placements(l, line as int, slot as int, *corners, transparent, corner as int),
                            width as int,
                            self.background,
                        ),
                    decreases 4 - corner,
                {
                    let ghost done = base + corner_placements(l, line as int, slot as int, *corners, transparent, corner as int);
                    let ghost prev = corner_placements(l, line as int, slot as int, *corners, transparent, corner as int);
                    match corner_label_of(corners, corner) {
                        Some(b) => {
                            match corner_origin(l, line, slot, corner, b.width, b.height) {
                                Some((x, y)) => {
                                    b.draw(rendered, x, y, width, transparent, self.background);
                                    proof {
                                        lemma_labels_drawn_push(start, done, (*b, x as int, y as int, transparent), width as int, self.background);
                                        assert(corner_placements(l, line as int, slot as int, *corners, transparent, corner + 1)
                                            == prev.push((*b, x as int, y as int, transparent)));
                                        assert(done.push((*b, x as int, y as int, transparent)) =~= base
                                            + corner_placements(l, line as int, slot as int, *corners, transparent, corner + 1));
                                    }
                                },
                                None => {
                                    assert(done =~= base + corner_placements(l, line as int, slot as int, *corners, transparent, corner + 1));
                                },
                            }
                        },
                        None => {
                            assert(done =~= base + corner_placements(l, line as int, slot as int, *corners, transparent, corner + 1));
                        },
                    }
                    corner = corner + 1;
                }
            } else {
                assert(base =~= base + self.corner_slot_placements(*state, l, labels@, slot as int));
            }
            slot = slot + 1;
        }
    }

    /// Draws the colorbar's value labels: `candidates[i]` holds the renderings
    /// of label `i` (0 at the top) in the order they are tried; the first one
    /// narrower than the colorbar is drawn at the right edge, vertically as
    /// `colorbar_label_top` says. Labels that fit nowhere are left out, and
    /// nothing is drawn without a colorbar, without data sets or with fewer
    /// than two labels.
    pub fn draw_colorbar_labels(
        &self,
        rendered: &mut Vec<Color>,
        width: usize,
        height: usize,
        candidates: &Vec<Vec<BitMapText>>,
    )
        requires
            self.wf(),
            width > 0,
            forall|i: int, j: int|
                0 <= i < candidates@.len() && 0 <= j < candidates@[i]@.len() ==> (
                #[trigger] candidates@[i]@[j]).wf(),
        ensures
            (self.colorbar is None || self.data@.len() == 0 || candidates@.len() < 2)
                ==> final(rendered)@ == old(rendered)@,
            !(self.colorbar is None || self.data@.len() == 0 || candidates@.len() < 2)
                ==> final(rendered)@ == labels_drawn(
                old(rendered)@,
                colorbar_placements(
                    candidates@,
                    self.colorbar->Some_0.thickness as int,
                    width as int,
                    height as int,
                    self.data@[0].data.overlay.font.background_is_transparent,
                    candidates@.len() as int,
                ),
                width as int,
                self.background,
            ),
    {
        let ghost start = rendered@;
        let thickness = match &self.colorbar {
            Some(c) => c.thickness,
            None => {
                return;
            },
        };
        if self.data.len() == 0 || candidates.len() < 2 {
            return;
        }
        let transparent = self.data[0].data.overlay.font.background_is_transparent;
        let count = candidates.len();
        let mut i: usize = 0;
        while i < count
            invariant
                count == candidates@.len(),
                count >= 2,
                width > 0,
                i <= count,
                forall|a: int, b: int|
                    0 <= a < candidates@.len() && 0 <= b < candidates@[a]@.len() ==> (
                    #[trigger] candidates@[a]@[b]).wf(),
                rendered@ == labels_drawn(
                    start,
                    colorbar_placements(candidates@, thickness as int, width as int, height as int, transparent, i as int),
                    width as int,
                    self.background,
                ),
            decreases count - i,
        {
            let ghost prev = colorbar_placements(candidates@, thickness as int, width as int, height as int, transparent, i as int);
            let ghost next = colorbar_placements(candidates@, thickness as int, width as int, height as int, transparent, i + 1);
            match choose_colorbar_label(&candidates[i], thickness) {
                Some(k) => {
                    let b = &candidates[i][k];
                    assert(b.wf());
                    if (b.height as usize) < height && (b.width as usize) < width {
                        let top = colorbar_label_position(i, count, height, b.height);
                        let left = width - b.width as usize;
                        b.draw(rendered, left, top, width, transparent, self.background);
                        proof {
                            lemma_labels_drawn_push(start, prev, (*b, left as int, top as int, transparent), width as int, self.background);
                            assert(next == prev.push((*b, left as int, top as int, transparent)));
                        }
                    } else {
                        assert(next == prev);
                    }
                },
                None => {
                    assert(next == prev);
                },
            }
            i = i + 1;
        }
    }
}

/// The smaller of two integers.
pub open spec fn min_int(a: int, b: int) -> int {
    if a < b {
        a
    } else {
        b
    }
}

/// Corner label `k` of `c`: 0 left top, 1 left bottom, 2 right top, 3 right bottom.
pub open spec fn corner_label(c: CornerLabels, k: int) -> Option<BitMapText> {
    if k == 0 {
        c.left_top
    } else if k == 1 {
        c.left_bottom
    } else if k == 2 {
        c.right_top
    } else {
        c.right_bottom
    }
}

/// Corner label `k` of `c`; see `corner_label`.
pub fn corner_label_of(c: &CornerLabels, k: usize) -> (r: &Option<BitMapText>)
    ensures
        *r == corner_label(*c, k as int),
{
    if k == 0 {
        &c.left_top
    } else if k == 1 {
        &c.left_bottom
    } else if k == 2 {
        &c.right_top
    } else {
        &c.right_bottom
    }
}

/// The first `k` corner labels of cell `slot` that are drawn, at `corner_origin`.
pub open spec fn corner_placements(
    l: Layout,
    line: int,
    slot: int,
    c: CornerLabels,
    transparent: bool,
    k: int,
) -> Seq<Placement>
    decreases k,
{
    if k <= 0 {
        seq![]
    } else {
        let prev = corner_placements(l, line, slot, c, transparent, k - 1);
        match corner_label(c, k - 1) {
            Some(b) => match corner_origin_spec(l, line, slot, k - 1, b.width as int, b.height as int) {
                Some((x, y)) => prev.push((b, x as int, y as int, transparent)),
                None => prev,
            },
            None => prev,
        }
    }
}

/// The first `i` colorbar value labels that are drawn: for each, the first
/// rendering narrower than the colorbar, if it fits the raster, at the right
/// edge and at row `colorbar_label_top`.
pub open spec fn colorbar_placements(
    candidates: Seq<Vec<BitMapText>>,
    thickness: int,
    width: int,
    height: int,
    transparent: bool,
    i: int,
) -> Seq<Placement>
    decreases i,
{
    if i <= 0 {
        seq![]
    } else {
        let prev = colorbar_placements(candidates, thickness, width, height, transparent, i - 1);
        let c = candidates[i - 1]@;
        match first_narrow(c, thickness, 0) {
            Some(k) => {
                let b = c[k as int];
                if b.height < height && b.width < width {
                    prev.push(
                        (
                            b,
                            width - b.width,
                            colorbar_label_top(i - 1, candidates.len() as int, height, b.height as int),
                            transparent,
                        ),
                    )
                } else {
                    prev
                }
            },
            None => prev,
        }
    }
}

} // verus!
