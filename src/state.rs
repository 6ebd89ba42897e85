use vstd::prelude::*;

use crate::colors::Color;
use crate::geometry::{fits_i32, CoordinatePoint, CoordinateRect, KeyBoardDirection, MultiMapPoint, ShowRect};
use crate::multimap::{
    centered, released, selection_after, shown, translated, visible_prefix, zoomed, MultiMapPosition,
    MultimapState, RenderProblem, ShowMultiMap,
};

verus! {

/// The texts of the context menu.
#[derive(Clone, Debug)]
pub struct Localization {
    /// Menu entry that copies the view to the clipboard after a delay
    pub text_copy_to_clipboard_delayed: String,
    /// Menu entry that copies the view to the clipboard
    pub text_copy_to_clipboard_instantly: String,
    /// Menu entry that hides a data set
    pub text_hide: String,
    /// Menu entry that shows all data sets
    pub text_show_all: String,
    /// Menu entry that clears the selection
    pub text_unselect_all: String,
    /// Menu entry that shows all data again
    pub text_home: String,
}

impl Localization {
    /// The English texts.
    pub fn english() -> (r: Self)
        ensures
            r.text_copy_to_clipboard_delayed@ == "Copy to Clipboard in 3 seconds"@,
            r.text_copy_to_clipboard_instantly@ == "Copy to Clipboard"@,
            r.text_hide@ == "Hide"@,
            r.text_show_all@ == "Show all"@,
            r.text_unselect_all@ == "Unselect all"@,
            r.text_home@ == "Home"@,
    {
        Localization {
            text_copy_to_clipboard_delayed: "Copy to Clipboard in 3 seconds".to_owned(),
            text_copy_to_clipboard_instantly: "Copy to Clipboard".to_owned(),
            text_hide: "Hide".to_owned(),
            text_show_all: "Show all".to_owned(),
            text_unselect_all: "Unselect all".to_owned(),
            text_home: "Home".to_owned(),
        }
    }
}

/// What happened to the view since the events were last fetched.
#[derive(Clone, Debug)]
pub enum Event<Key> {
    /// A data set was hidden
    Hide(Key),
    /// All data sets were shown
    ShowAll,
    /// The selection was cleared
    UnselectAll,
    /// The shown rectangle changed; see `currently_showing`
    ShowRectangle,
    /// The selection changed; see `selected`
    Selection,
}

/// The number of `true` entries among the first `n` of `s`.
pub open spec fn count_true(s: Seq<bool>, n: int) -> int
    decreases n,
{
    if n <= 0 {
        0
    } else {
        count_true(s, n - 1) + if s[n - 1] {
            1int
        } else {
            0int
        }
    }
}

/// The state of one view of a heatmap: the view state proper, the texts,
/// what the pointer is over, and the events not yet fetched.
pub struct ShowState<Key> {
    /// The view state
    pub multimap: MultimapState,
    /// The texts of the context menu
    pub localization: Localization,
    /// What the pointer is over
    pub mouse: MultiMapPosition,
    /// Whether the position under the pointer was clicked in this frame
    pub clicked: bool,
    /// The problem of the last rendering, if any
    pub render_problem: Option<RenderProblem>,
    /// Events not yet fetched
    pub events: Vec<Event<Key>>,
}

impl<Key> ShowState<Key> {
    pub open spec fn wf(&self) -> bool {
        self.multimap.wf()
    }

    /// A state for `multimap` with English texts, no pointer and no events.
    pub fn new(multimap: MultimapState) -> (r: Self)
        ensures
            r.multimap == multimap,
            r.mouse == MultiMapPosition::NotHovering,
            !r.clicked,
            r.render_problem is None,
            r.events@.len() == 0,
    {
        ShowState {
            multimap,
            localization: Localization::english(),
            mouse: MultiMapPosition::NotHovering,
            clicked: false,
            render_problem: None,
            events: Vec::new(),
        }
    }

    /// Selects the given points and only those.
    pub fn make_selected(&mut self, selected: Vec<CoordinatePoint>)
        requires
            old(self).wf(),
        ensures
            final(self).wf(),
            final(self).multimap.selected@.to_set() == selected@.to_set(),
            final(self).multimap.shown_rectangle == old(self).multimap.shown_rectangle,
            final(self).multimap.to_plot@ == old(self).multimap.to_plot@,
            final(self).events@ == old(self).events@,
            final(self).render_problem == old(self).render_problem,
    {
        let mut unique: Vec<CoordinatePoint> = Vec::new();
        let mut i: usize = 0;
        while i < selected.len()
            invariant
                i <= selected@.len(),
                unique@.no_duplicates(),
                unique@.to_set() == selected@.subrange(0, i as int).to_set(),
            decreases selected@.len() - i,
        {
            let p = selected[i];
            let ghost before = unique@;
            proof {
                selected@.subrange(0, i as int).lemma_push_to_set_commute(p);
                assert(selected@.subrange(0, i + 1) == selected@.subrange(0, i as int).push(p));
            }
            if !contains(&unique, &p) {
                unique.push(p);
                proof {
                    before.lemma_push_to_set_commute(p);
                }
            } else {
                proof {
                    assert(before.to_set().contains(p));
                    assert(before.to_set().insert(p) =~= before.to_set());
                }
            }
            i = i + 1;
        }
        assert(selected@.subrange(0, selected@.len() as int) == selected@);
        self.multimap.selected = unique;
    }

    /// Clears the selection.
    pub fn clear_selected(&mut self)
        requires
            old(self).wf(),
        ensures
            final(self).wf(),
            final(self).multimap.selected@.len() == 0,
            final(self).multimap.shown_rectangle == old(self).multimap.shown_rectangle,
            final(self).multimap.to_plot@ == old(self).multimap.to_plot@,
            final(self).events@ == old(self).events@,
            final(self).render_problem == old(self).render_problem,
    {
        self.multimap.selected.clear();
    }

    /// Hands out the events that happened since the last call.
    pub fn events(&mut self) -> (r: Vec<Event<Key>>)
        ensures
            r@ == old(self).events@,
            final(self).events@.len() == 0,
            final(self).multimap == old(self).multimap,
    {
        let mut taken: Vec<Event<Key>> = Vec::new();
        std::mem::swap(&mut taken, &mut self.events);
        taken
    }

    /// The selected points.
    pub fn selected(&self) -> (r: &Vec<CoordinatePoint>)
        ensures
            r@ == self.multimap.selected@,
    {
        &self.multimap.selected
    }

    /// The shown rectangle, once it is known.
    pub fn currently_showing(&self) -> (r: Option<CoordinateRect>)
        ensures
            r is Some <==> self.multimap.shown_rectangle is Some,
            r is Some ==> r->Some_0.left_top.x == self.multimap.shown_rectangle->Some_0.left_top.x
                && r->Some_0.left_top.y == self.multimap.shown_rectangle->Some_0.left_top.y
                && r->Some_0.right_bottom.x == self.multimap.shown_rectangle->Some_0.right_bottom.x
                && r->Some_0.right_bottom.y == self.multimap.shown_rectangle->Some_0.right_bottom.y,
    {
        self.multimap.currently_showing()
    }

    /// The problem of the last rendering, if there was one.
    pub fn render_problem(&self) -> (r: Option<&RenderProblem>)
        ensures
            r is Some <==> self.render_problem is Some,
            r is Some ==> *r->Some_0 == self.render_problem->Some_0,
    {
        match &self.render_problem {
            Some(p) => Some(p),
            None => None,
        }
    }

    /// The position under the pointer, if it was clicked in this frame.
    pub fn clicked(&self) -> (r: Option<MultiMapPosition>)
        ensures
            r == (if self.clicked {
                Some(self.mouse)
            } else {
                None
            }),
    {
        if self.clicked {
            Some(self.mouse)
        } else {
            None
        }
    }

    /// The position under the pointer.
    pub fn hover(&self) -> (r: MultiMapPosition)
        ensures
            r == self.mouse,
    {
        self.mouse
    }

    /// Records what the pointer is over and whether it clicked.
    pub fn set_pointer(&mut self, mouse: MultiMapPosition, clicked: bool)
        ensures
            final(self).mouse == mouse,
            final(self).clicked == clicked,
            final(self).multimap == old(self).multimap,
            final(self).events@ == old(self).events@,
    {
        self.mouse = mouse;
        self.clicked = clicked;
    }

    /// Some data set is hidden.
    pub fn has_hidden(&self) -> (r: bool)
        ensures
            r == exists|i: int| 0 <= i < self.multimap.to_plot@.len() && !self.multimap.to_plot@[i],
    {
        let mut i: usize = 0;
        while i < self.multimap.to_plot.len()
            invariant
                i <= self.multimap.to_plot@.len(),
                forall|j: int| 0 <= j < i ==> self.multimap.to_plot@[j],
            decreases self.multimap.to_plot@.len() - i,
        {
            if !self.multimap.to_plot[i] {
                return true;
            }
            i = i + 1;
        }
        false
    }

    /// More than one data set is shown, so one may be hidden.
    pub fn can_hide(&self) -> (r: bool)
        ensures
            r == (count_true(self.multimap.to_plot@, self.multimap.to_plot@.len() as int) > 1),
    {
        let mut count: usize = 0;
        let mut i: usize = 0;
        while i < self.multimap.to_plot.len()
            invariant
                i <= self.multimap.to_plot@.len(),
                count == count_true(self.multimap.to_plot@, i as int),
                count <= i,
            decreases self.multimap.to_plot@.len() - i,
        {
            if self.multimap.to_plot[i] {
                count = count + 1;
            }
            i = i + 1;
        }
        count > 1
    }

    /// Hides data set `index`, known by `key`.
    pub fn hide_data_set(&mut self, index: usize, key: Key)
        requires
            old(self).wf(),
            index < usize::MAX,
        ensures
            final(self).wf(),
            forall|i: int|
                0 <= i ==> #[trigger] shown(final(self).multimap.to_plot@, i) == (i != index && shown(
                    old(self).multimap.to_plot@,
                    i,
                )),
            final(self).events@ == old(self).events@.push(Event::Hide(key)),
            final(self).multimap.selected@ == old(self).multimap.selected@,
            final(self).multimap.shown_rectangle == old(self).multimap.shown_rectangle,
    {
        self.events.push(Event::Hide(key));
        if index < self.multimap.to_plot.len() {
            self.multimap.to_plot.set(index, false);
        } else {
            let ghost before = self.multimap.to_plot@;
            let ghost events = self.events@;
            let ghost selected = self.multimap.selected@;
            let ghost rect = self.multimap.shown_rectangle;
            while self.multimap.to_plot.len() < index
                invariant
                    self.events@ == events,
                    self.multimap.selected@ == selected,
                    self.multimap.shown_rectangle == rect,
                    before.len() <= self.multimap.to_plot@.len() <= index,
                    forall|i: int| 0 <= i < before.len() ==> self.multimap.to_plot@[i] == before[i],
                    forall|i: int|
                        before.len() <= i < self.multimap.to_plot@.len() ==> self.multimap.to_plot@[i],
                decreases index - self.multimap.to_plot@.len(),
            {
                self.multimap.to_plot.push(true);
            }
            self.multimap.to_plot.push(false);
        }
    }

    /// Shows all data sets.
    pub fn show_all(&mut self)
        requires
            old(self).wf(),
        ensures
            final(self).wf(),
            forall|i: int| 0 <= i ==> #[trigger] shown(final(self).multimap.to_plot@, i),
            final(self).events@ == old(self).events@.push(Event::ShowAll),
            final(self).multimap.selected@ == old(self).multimap.selected@,
            final(self).multimap.shown_rectangle == old(self).multimap.shown_rectangle,
    {
        self.events.push(Event::ShowAll);
        let ghost events = self.events@;
        let ghost selected = self.multimap.selected@;
        let ghost rect = self.multimap.shown_rectangle;
        let mut i: usize = 0;
        while i < self.multimap.to_plot.len()
            invariant
                self.events@ == events,
                self.multimap.selected@ == selected,
                self.multimap.shown_rectangle == rect,
                i <= self.multimap.to_plot@.len(),
                forall|j: int| 0 <= j < i ==> self.multimap.to_plot@[j],
            decreases self.multimap.to_plot@.len() - i,
        {
            self.multimap.to_plot.set(i, true);
            i = i + 1;
        }
    }

    /// Clears the selection; returns whether anything was selected.
    pub fn unselect_all(&mut self) -> (r: bool)
        requires
            old(self).wf(),
        ensures
            final(self).wf(),
            r == (old(self).multimap.selected@.len() > 0),
            final(self).multimap.selected@.len() == 0,
            final(self).events@ == old(self).events@.push(Event::UnselectAll),
            final(self).multimap.shown_rectangle == old(self).multimap.shown_rectangle,
            final(self).multimap.to_plot@ == old(self).multimap.to_plot@,
    {
        self.events.push(Event::UnselectAll);
        if self.multimap.selected.len() == 0 {
            false
        } else {
            self.multimap.selected.clear();
            true
        }
    }

    /// Clicks point `pos` (see `ShowMultiMap::select`) and records the change.
    pub fn select<K>(&mut self, engine: &mut ShowMultiMap<K>, pos: &CoordinatePoint, ctrl_is_pressed: bool)
        requires
            old(self).wf(),
        ensures
            final(self).wf(),
            *final(engine) == *old(engine),
            final(self).multimap.selected@.to_set() == selection_after(
                old(self).multimap.selected@.to_set(),
                *pos,
                ctrl_is_pressed,
            ),
            final(self).events@ == old(self).events@.push(Event::Selection),
            final(self).multimap.shown_rectangle == old(self).multimap.shown_rectangle,
    {
        self.events.push(Event::Selection);
        engine.select(pos, ctrl_is_pressed, &mut self.multimap.selected);
    }

    /// Zooms the shown rectangle, once it is known; see `ShowMultiMap::zoom`.
    pub fn zoom<K>(&mut self, engine: &mut ShowMultiMap<K>, zoom_increment: i32)
        requires
            old(self).wf(),
        ensures
            final(self).wf(),
            *final(engine) == *old(engine),
            final(self).multimap.shown_rectangle == match old(self).multimap.shown_rectangle {
                Some(r) => Some(zoomed(r, zoom_increment as int)),
                None => None,
            },
            final(self).multimap.selected@ == old(self).multimap.selected@,
            final(self).multimap.to_plot@ == old(self).multimap.to_plot@,
    {
        if let Some(mut rect) = self.multimap.shown_rectangle {
            engine.zoom(zoom_increment, &mut rect);
            self.multimap.shown_rectangle = Some(rect);
        }
    }

    /// Moves the shown rectangle by `delta`, once it is known; see `ShowMultiMap::translate`.
    pub fn translate<K>(&mut self, engine: &mut ShowMultiMap<K>, delta: CoordinatePoint)
        requires
            old(self).wf(),
        ensures
            final(self).wf(),
            *final(engine) == *old(engine),
            old(self).multimap.shown_rectangle is None ==> final(self).multimap.shown_rectangle is None,
            old(self).multimap.shown_rectangle is Some ==> final(self).multimap.shown_rectangle is Some
                && translated(
                old(self).multimap.shown_rectangle->Some_0,
                final(self).multimap.shown_rectangle->Some_0,
                delta.x as int,
                delta.y as int,
            ),
            final(self).multimap.selected@ == old(self).multimap.selected@,
            final(self).multimap.to_plot@ == old(self).multimap.to_plot@,
    {
        if let Some(mut rect) = self.multimap.shown_rectangle {
            engine.translate(delta, &mut rect);
            self.multimap.shown_rectangle = Some(rect);
        }
    }

    /// Moves the shown rectangle one step, once it is known.
    pub fn translate_keyboard<K>(&mut self, engine: &mut ShowMultiMap<K>, direction: KeyBoardDirection)
        requires
            old(self).wf(),
        ensures
            final(self).wf(),
            *final(engine) == *old(engine),
            old(self).multimap.shown_rectangle is None ==> final(self).multimap.shown_rectangle is None,
            old(self).multimap.shown_rectangle is Some ==> final(self).multimap.shown_rectangle is Some
                && ({
                let (dx, dy) = match direction {
                    KeyBoardDirection::Up => (0int, -1int),
                    KeyBoardDirection::Down => (0int, 1int),
                    KeyBoardDirection::Left => (-1int, 0int),
                    KeyBoardDirection::Right => (1int, 0int),
                };
                translated(
                    old(self).multimap.shown_rectangle->Some_0,
                    final(self).multimap.shown_rectangle->Some_0,
                    dx,
                    dy,
                )
            }),
            final(self).multimap.selected@ == old(self).multimap.selected@,
    {
        if let Some(mut rect) = self.multimap.shown_rectangle {
            engine.translate_keyboard(direction, &mut rect);
            self.multimap.shown_rectangle = Some(rect);
        }
    }

    /// Centers the shown rectangle on `pos`, once it is known; see `ShowMultiMap::center_to`.
    pub fn center_to<K>(&mut self, engine: &mut ShowMultiMap<K>, pos: &CoordinatePoint)
        requires
            old(self).wf(),
        ensures
            final(self).wf(),
            *final(engine) == *old(engine),
            final(self).multimap.shown_rectangle == match old(self).multimap.shown_rectangle {
                Some(r) => Some(centered(r, *pos)),
                None => None,
            },
    {
        if let Some(mut rect) = self.multimap.shown_rectangle {
            engine.center_to(pos, &mut rect);
            self.multimap.shown_rectangle = Some(rect);
        }
    }

    /// Ends a drag at `pos`; see `ShowMultiMap::drag_release`.
    pub fn drag_release<K>(&mut self, engine: &mut ShowMultiMap<K>, pos: Option<&CoordinatePoint>)
        requires
            old(self).wf(),
        ensures
            final(self).wf(),
            final(engine).drag_area is None,
            final(engine).data@ == old(engine).data@,
            final(self).multimap.shown_rectangle == match old(self).multimap.shown_rectangle {
                Some(r) => Some(
                    released(
                        r,
                        old(engine).drag_area,
                        match pos {
                            Some(p) => Some(*p),
                            None => None,
                        },
                    ),
                ),
                None => None,
            },
    {
        match self.multimap.shown_rectangle {
            Some(mut rect) => {
                engine.drag_release(pos, &mut rect);
                self.multimap.shown_rectangle = Some(rect);
            },
            None => {
                let mut unused = ShowRect::default_rect();
                engine.drag_release(pos, &mut unused);
            },
        }
    }

    /// Renders into a `width` by `height` raster and records the problem, if
    /// any; on a problem the raster is filled with `sentinel`.
    pub fn render<K>(&mut self, engine: &ShowMultiMap<K>, width: usize, height: usize, sentinel: Color) -> (r:
        Vec<Color>)
        requires
            old(self).wf(),
            engine.wf(),
            width * height <= usize::MAX,
        ensures
            final(self).wf(),
            r@.len() == width * height,
            ({
                let visible = visible_prefix(old(self).multimap.to_plot@, engine.data@.len() as int);
                if engine.data@.len() == 0 {
                    final(self).render_problem == Some(RenderProblem::NoData)
                } else if visible.len() == 0 {
                    final(self).render_problem == Some(RenderProblem::CountIsZero)
                } else if engine.reserved_width() > width {
                    final(self).render_problem == Some(RenderProblem::WidthSmallerThanColorBar)
                } else {
                    final(self).render_problem is None
                }
            }),
            final(self).render_problem is Some ==> forall|i: int|
                0 <= i < width * height ==> #[trigger] r@[i] == sentinel,
            final(self).render_problem is None ==> forall|i: int|
                0 <= i < width * height ==> #[trigger] r@[i] == engine.pixel_color(
                    final(self).multimap,
                    final(self).multimap.shown_rectangle->Some_0,
                    width as int,
                    height as int,
                    i % width as int,
                    i / width as int,
                ),
            final(self).multimap.to_plot@ == old(self).multimap.to_plot@,
            final(self).multimap.selected@ == old(self).multimap.selected@,
            final(self).events@ == old(self).events@,
    {
        let (image, problem) = engine.render_frame(width, height, &mut self.multimap, sentinel);
        self.render_problem = problem;
        image
    }

    /// Records that the shown rectangle changed, if it differs from `before`.
    pub fn note_shown_rectangle(&mut self, before: Option<CoordinateRect>)
        ensures
            final(self).multimap == old(self).multimap,
            final(self).events@ == (if self_rect_eq(before, old(self).multimap.shown_rectangle) {
                old(self).events@
            } else {
                old(self).events@.push(Event::ShowRectangle)
            }),
    {
        let now = self.multimap.currently_showing();
        let same = match (before, now) {
            (None, None) => true,
            (Some(a), Some(b)) => a == b,
            _ => false,
        };
        if !same {
            self.events.push(Event::ShowRectangle);
        }
    }
}

/// `before` describes the rectangle `now`.
pub open spec fn self_rect_eq(before: Option<CoordinateRect>, now: Option<ShowRect>) -> bool {
    match (before, now) {
        (None, None) => true,
        (Some(a), Some(b)) => a.left_top.x == b.left_top.x && a.left_top.y == b.left_top.y
            && a.right_bottom.x == b.right_bottom.x && a.right_bottom.y == b.right_bottom.y,
        _ => false,
    }
}

fn contains(points: &Vec<CoordinatePoint>, p: &CoordinatePoint) -> (r: bool)
    ensures
        r == points@.contains(*p),
{
    let mut i: usize = 0;
    while i < points.len()
        invariant
            i <= points@.len(),
            forall|j: int| 0 <= j < i ==> points@[j] != *p,
        decreases points@.len() - i,
    {
        if points[i] == *p {
            return true;
        }
        i = i + 1;
    }
    false
}

/// The state of a view of a single heatmap.
pub struct ShowStateSingle {
    /// The state of the underlying view
    pub state: ShowState<()>,
}

impl ShowStateSingle {
    /// Selects the given points and only those.
    pub fn make_selected(&mut self, selected: Vec<CoordinatePoint>)
        requires
            old(self).state.wf(),
        ensures
            final(self).state.wf(),
            final(self).state.multimap.selected@.to_set() == selected@.to_set(),
            final(self).state.multimap.shown_rectangle == old(self).state.multimap.shown_rectangle,
            final(self).state.multimap.to_plot@ == old(self).state.multimap.to_plot@,
            final(self).state.render_problem == old(self).state.render_problem,
            final(self).state.events@ == old(self).state.events@,
    {
        self.state.make_selected(selected)
    }

    /// Clears the selection.
    pub fn clear_selected(&mut self)
        requires
            old(self).state.wf(),
        ensures
            final(self).state.wf(),
            final(self).state.multimap.selected@.len() == 0,
            final(self).state.multimap.shown_rectangle == old(self).state.multimap.shown_rectangle,
            final(self).state.multimap.to_plot@ == old(self).state.multimap.to_plot@,
            final(self).state.render_problem == old(self).state.render_problem,
            final(self).state.events@ == old(self).state.events@,
    {
        self.state.clear_selected()
    }

    /// Hands out the events that happened since the last call.
    pub fn events(&mut self) -> (r: Vec<Event<()>>)
        ensures
            r@ == old(self).state.events@,
            final(self).state.events@.len() == 0,
            final(self).state.multimap == old(self).state.multimap,
    {
        self.state.events()
    }

    /// The selected points.
    pub fn selected(&self) -> (r: &Vec<CoordinatePoint>)
        ensures
            r@ == self.state.multimap.selected@,
    {
        self.state.selected()
    }

    /// The shown rectangle, once it is known.
    pub fn currently_showing(&self) -> (r: Option<CoordinateRect>)
        ensures
            r is Some <==> self.state.multimap.shown_rectangle is Some,
            r is Some ==> r->Some_0.left_top.x == self.state.multimap.shown_rectangle->Some_0.left_top.x
                && r->Some_0.left_top.y == self.state.multimap.shown_rectangle->Some_0.left_top.y
                && r->Some_0.right_bottom.x == self.state.multimap.shown_rectangle->Some_0.right_bottom.x
                && r->Some_0.right_bottom.y == self.state.multimap.shown_rectangle->Some_0.right_bottom.y,
    {
        self.state.currently_showing()
    }

    /// The problem of the last rendering, if there was one.
    pub fn render_problem(&self) -> (r: Option<&RenderProblem>)
        ensures
            r is Some <==> self.state.render_problem is Some,
            r is Some ==> *r->Some_0 == self.state.render_problem->Some_0,
    {
        self.state.render_problem()
    }

    /// The position under the pointer, if it was clicked in this frame.
    pub fn clicked(&self) -> (r: Option<MultiMapPosition>)
        ensures
            r == (if self.state.clicked {
                Some(self.state.mouse)
            } else {
                None
            }),
    {
        self.state.clicked()
    }

    /// The position under the pointer.
    pub fn hover(&self) -> (r: MultiMapPosition)
        ensures
            r == self.state.mouse,
    {
        self.state.hover()
    }
}

impl<Key> ShowState<Key> {
    /// Zooms by `zoom_increment` around the data point under raster pixel
    /// `point` of a raster of `size`: the rectangle is zoomed, then moved so
    /// that the point under the pixel is the one that was there before. Where
    /// no data point lies under the pixel nothing changes; where none lies
    /// there after zooming, or the move would leave the `i32` range, the
    /// rectangle is only zoomed.
    pub fn zoom_around<K>(
        &mut self,
        engine: &mut ShowMultiMap<K>,
        zoom_increment: i32,
        point: MultiMapPoint,
        size: [usize; 2],
    )
        requires
            old(self).wf(),
            old(engine).wf(),
        ensures
            final(self).wf(),
            *final(engine) == *old(engine),
            final(self).multimap.selected@ == old(self).multimap.selected@,
            final(self).multimap.to_plot@ == old(self).multimap.to_plot@,
            ({
                let before = old(engine).position_spec(
                    old(self).multimap,
                    size[0] as int,
                    size[1] as int,
                    point.x as int,
                    point.y as int,
                );
                match before.get_pos_spec() {
                    None => final(self).multimap.shown_rectangle == old(self).multimap.shown_rectangle,
                    Some(b) => {
                        let zoomed_rect = zoomed(old(self).multimap.shown_rectangle->Some_0, zoom_increment as int);
                        let mid = MultimapState { shown_rectangle: Some(zoomed_rect), ..old(self).multimap };
                        let after = old(engine).position_spec(
                            mid,
                            size[0] as int,
                            size[1] as int,
                            point.x as int,
                            point.y as int,
                        );
                        &&& old(self).multimap.shown_rectangle is Some
                        &&& final(self).multimap.shown_rectangle is Some
                        &&& match after.get_pos_spec() {
                            None => final(self).multimap.shown_rectangle == Some(zoomed_rect),
                            Some(a) => translated(
                                zoomed_rect,
                                final(self).multimap.shown_rectangle->Some_0,
                                b.x - a.x,
                                b.y - a.y,
                            ) || (!fits_i32(b.x - a.x) || !fits_i32(b.y - a.y))
                                && final(self).multimap.shown_rectangle == Some(zoomed_rect),
                        }
                    },
                }
            }),
    {
        let before = engine.convert_multimap2bitmap(point, size, &self.multimap).get_pos();
        if let Some(b) = before {
            self.zoom(engine, zoom_increment);
            let after = engine.convert_multimap2bitmap(point, size, &self.multimap).get_pos();
            if let Some(a) = after {
                let dx = b.x as i64 - a.x as i64;
                let dy = b.y as i64 - a.y as i64;
                if i32::MIN as i64 <= dx && dx <= i32::MAX as i64 && i32::MIN as i64 <= dy && dy
                    <= i32::MAX as i64 {
                    self.translate(engine, CoordinatePoint { x: dx as i32, y: dy as i32 });
                }
            }
        }
    }
}

} // verus!
