use egui_heatmap::labels::{choose_colorbar_label, choose_title, colorbar_label_position};
use egui_heatmap::{
    BitMapDrawable, BitMapPoint, BitMapText, BitMapVec, BitmapData, Color, ColorWithThickness,
    CoordinatePoint, Data, DataWithMetadata, Event, Font, FontOptions, Localization,
    MultiMapPosition, Overlay, RenderProblem, ShowMultiMap, ShowMultiMapSettings, ShowPoint,
    ShowRect, ShowState, ShowStateSingle,
};

fn font() -> FontOptions {
    FontOptions { font: Font::Font8x8, background_is_transparent: false, font_height: 10 }
}

fn bitmap(width: i32, height: i32, v: u8) -> BitMapText {
    BitMapText { data: vec![v; (width * height) as usize], width, height }
}

fn dataset(x: i32, y: i32) -> Data {
    Data {
        width: 3,
        height: 2,
        data: vec![Color::from_rgb(9, 9, 9); 6],
        first_point_coordinate: CoordinatePoint { x, y },
        overlay: Overlay::new(font(), false, Vec::new(), String::new(), Vec::new()),
    }
}

fn engine() -> ShowMultiMap<&'static str> {
    let line = ColorWithThickness { color: Color::from_rgb(0, 0, 0), thickness: 1 };
    ShowMultiMap::with_settings(
        vec![
            DataWithMetadata { key: "a", data: dataset(0, 0) },
            DataWithMetadata { key: "b", data: dataset(10, 10) },
        ],
        ShowMultiMapSettings {
            boundary_between_data: line,
            colorbar: None,
            background: Color::from_rgb(1, 1, 1),
            boundary_unselected: line,
            boundary_selected: Color::from_rgb(2, 2, 2),
            boundary_factor_min: 3,
        },
    )
}

fn p(x: i32, y: i32) -> CoordinatePoint {
    CoordinatePoint { x, y }
}

#[test]
fn english_texts() {
    let l = Localization::english();
    assert_eq!(l.text_home, "Home");
    assert_eq!(l.text_hide, "Hide");
    assert_eq!(l.text_show_all, "Show all");
    assert_eq!(l.text_unselect_all, "Unselect all");
    assert_eq!(l.text_copy_to_clipboard_instantly, "Copy to Clipboard");
    assert_eq!(l.text_copy_to_clipboard_delayed, "Copy to Clipboard in 3 seconds");
}

#[test]
fn selection_and_events() {
    let mut map = engine();
    let mut state: ShowState<&str> = ShowState::new(map.default_state());
    state.make_selected(vec![p(1, 1), p(2, 2), p(1, 1)]);
    assert_eq!(state.selected(), &vec![p(1, 1), p(2, 2)]);
    state.select(&mut map, &p(3, 3), false);
    assert_eq!(state.selected(), &vec![p(3, 3)]);
    assert!(state.unselect_all());
    assert!(!state.unselect_all());
    let events = state.events();
    assert!(matches!(events.as_slice(), [Event::Selection, Event::UnselectAll, Event::UnselectAll]));
    assert!(state.events().is_empty());
}

#[test]
fn hiding_and_showing() {
    let map = engine();
    let mut state: ShowState<&str> = ShowState::new(map.default_state());
    assert!(!state.has_hidden());
    assert!(state.can_hide());
    state.hide_data_set(1, "b");
    assert!(state.has_hidden());
    assert!(!state.can_hide());
    assert_eq!(state.multimap.to_plot, vec![true, false]);
    state.hide_data_set(3, "d");
    assert_eq!(state.multimap.to_plot, vec![true, false, true, false]);
    state.show_all();
    assert!(!state.has_hidden());
    let events = state.events();
    assert!(matches!(events.as_slice(), [Event::Hide("b"), Event::Hide("d"), Event::ShowAll]));
}

#[test]
fn rendering_through_the_state() {
    let mut map = engine();
    let mut state: ShowState<&str> = ShowState::new(map.default_state());
    let sentinel = Color::from_rgb(255, 215, 0);
    let before = state.currently_showing();
    let frame = state.render(&map, 20, 10, sentinel);
    assert_eq!(frame.len(), 200);
    assert!(state.render_problem().is_none());
    state.note_shown_rectangle(before);
    let shown = state.currently_showing().unwrap();
    assert_eq!((shown.left_top.x, shown.right_bottom.x), (0, 13));
    state.zoom(&mut map, -1);
    state.center_to(&mut map, &p(0, 0));
    let shown = state.currently_showing().unwrap();
    assert_eq!((shown.left_top.x, shown.left_top.y, shown.right_bottom.x, shown.right_bottom.y), (-8, -7, 7, 7));
    state.multimap.to_plot = vec![false, false];
    let frame = state.render(&map, 4, 4, sentinel);
    assert!(frame.iter().all(|c| *c == sentinel));
    assert_eq!(state.render_problem(), Some(&RenderProblem::CountIsZero));
    assert!(matches!(state.events().as_slice(), [Event::ShowRectangle]));
}

#[test]
fn single_state_forwards() {
    let map = engine();
    let mut single = ShowStateSingle { state: ShowState::new(map.default_state()) };
    single.state.hide_data_set(0, ());
    single.make_selected(vec![p(5, 5)]);
    assert_eq!(single.selected(), &vec![p(5, 5)]);
    single.clear_selected();
    assert!(single.selected().is_empty());
    assert!(single.currently_showing().is_none());
    assert!(single.render_problem().is_none());
    assert_eq!(single.hover(), MultiMapPosition::NotHovering);
    assert_eq!(single.clicked(), None);
    single.state.set_pointer(MultiMapPosition::Pixel(0, p(1, 2)), true);
    assert_eq!(single.clicked(), Some(MultiMapPosition::Pixel(0, p(1, 2))));
    assert_eq!(single.hover().get_pos(), Some(p(1, 2)));
    assert_eq!(single.hover().get_key(), Some(0));
    assert!(matches!(single.events().as_slice(), [Event::Hide(())]));
}

#[test]
fn overlay_shares_equal_bitmaps() {
    let labels = vec![
        (p(0, 0), bitmap(2, 2, 7)),
        (p(1, 0), bitmap(2, 2, 7)),
        (p(0, 0), bitmap(1, 1, 9)),
    ];
    let overlay = Overlay::new(font(), true, labels, "T".to_string(), Vec::new());
    assert_eq!(overlay.overlay_count(), 2);
    assert_eq!(overlay.overlay_bitmaps.len(), 2);
    let (point, b) = overlay.overlay(0);
    assert_eq!(point, p(0, 0));
    assert_eq!((b.width, b.data.clone()), (1, vec![9]));
}

#[test]
fn data_lookup_and_bounding_box() {
    let d = Data { data: (0..6).map(|i| Color::from_rgb(i, 0, 0)).collect(), ..dataset(-1, 4) };
    assert_eq!(d.lookup(&p(0, 5)), Some(Color::from_rgb(4, 0, 0)));
    assert_eq!(d.lookup(&p(2, 4)), None);
    assert_eq!(d.lookup(&p(-2, 4)), None);
    let b = d.bounding_box();
    assert_eq!((b.left_top, b.right_bottom), (p(-1, 4), p(2, 6)));
    assert_eq!(b.delta().x, 3);
}

#[test]
fn bitmap_points() {
    let mut b = BitmapData { width: 2, height: 2, pixels: vec![Color::from_rgb(0, 0, 0); 4] };
    let q = BitMapPoint { x: 1, y: 1 };
    assert_eq!(b.set_color_at_point(q, Color::from_rgb(5, 5, 5)), Some(Color::from_rgb(0, 0, 0)));
    assert_eq!(b.get_color_at_point(q), Some(Color::from_rgb(5, 5, 5)));
    assert_eq!(b.pixels[3], Color::from_rgb(5, 5, 5));
    assert_eq!(b.set_color_at_point(BitMapPoint { x: 2, y: 0 }, Color::from_rgb(1, 1, 1)), None);
    assert_eq!(b.get_color_at_point(BitMapPoint { x: 0, y: -1 }), None);
    let mut r = q.add(BitMapVec { x: 2, y: -3 });
    assert_eq!(r, BitMapPoint { x: 3, y: -2 });
    assert_eq!(r.sub(q), BitMapVec { x: 2, y: -3 });
    r.add_assign(BitMapVec { x: -3, y: 2 });
    assert_eq!(r, BitMapPoint { x: 0, y: 0 });
}

#[test]
fn label_choices_and_positions() {
    let titles = vec![Some(bitmap(9, 1, 1)), None, Some(bitmap(7, 1, 1)), Some(bitmap(2, 1, 1))];
    assert_eq!(choose_title(&titles, 10), Some(2));
    assert_eq!(choose_title(&titles, 2), None);
    let values = vec![bitmap(5, 1, 1), bitmap(3, 1, 1)];
    assert_eq!(choose_colorbar_label(&values, 4), Some(1));
    assert_eq!(choose_colorbar_label(&values, 3), None);
    assert_eq!(colorbar_label_position(0, 5, 100, 10), 0);
    assert_eq!(colorbar_label_position(2, 5, 100, 10), 45);
    assert_eq!(colorbar_label_position(4, 5, 100, 10), 90);
    let corners = ShowRect { left_top: ShowPoint { x: 1, y: 2 }, right_bottom: ShowPoint { x: 5, y: 9 } }
        .corner_coordinates();
    assert_eq!(corners, [p(1, 2), p(1, 8), p(4, 2), p(4, 8)]);
}

#[test]
fn color_operations() {
    assert_eq!(Color::gray(7), Color { r: 7, g: 7, b: 7, a: 0 });
    let c = Color { r: 250, g: 3, b: 0, a: 0 };
    assert_eq!(c.saturating_add(10), Color { r: 255, g: 13, b: 10, a: 255 });
    assert_eq!(c.remove_alpha(), Color { r: 250, g: 3, b: 0, a: 255 });
    assert_eq!(c.darken(), Color { r: 125, g: 2, b: 0, a: 0 });
}

#[test]
fn malformed_data_is_detected() {
    assert!(dataset(0, 0).is_well_formed());
    let short = Data { data: vec![Color::from_rgb(0, 0, 0); 5], ..dataset(0, 0) };
    assert!(!short.is_well_formed());
    assert!(!dataset(i32::MAX - 1, 0).is_well_formed());
    let labels = vec![(p(0, 0), BitMapText { data: vec![1, 2, 3], width: 2, height: 2 })];
    let overlay = Overlay::new(font(), false, Vec::new(), String::new(), Vec::new());
    assert!(overlay.is_well_formed());
    let mut broken = overlay.clone();
    broken.overlay_bitmaps = labels.into_iter().map(|(_, b)| b).collect();
    assert!(!broken.is_well_formed());
}

fn titled(show_coordinates: bool, titles: Vec<Option<BitMapText>>) -> Data {
    Data {
        overlay: Overlay::new(font(), show_coordinates, Vec::new(), "T".to_string(), titles),
        ..dataset(0, 0)
    }
}

fn single(data: Data) -> ShowMultiMap<&'static str> {
    let mut map = engine();
    map.data = vec![DataWithMetadata { key: "a", data }];
    map.boundary_between_data.thickness = 2;
    map
}

#[test]
fn no_data_wins_over_a_known_rectangle() {
    let mut map = engine();
    map.data = Vec::new();
    let mut state = map.default_state();
    map.home(&mut state);
    assert!(state.shown_rectangle.is_some());
    assert_eq!(map.render(10, 10, &mut state), Err(RenderProblem::NoData));
}

#[test]
fn colorbar_hit_test_needs_no_render() {
    let mut map = engine();
    map.colorbar = Some(egui_heatmap::Colorbar {
        gradient: egui_heatmap::Gradient(vec![Color::from_rgb(1, 0, 0), Color::from_rgb(2, 0, 0)]),
        thickness: 4,
    });
    let state = map.default_state();
    let hit = map.convert_multimap2bitmap(egui_heatmap::MultiMapPoint { x: 29, y: 0 }, [30, 10], &state);
    assert_eq!(hit, MultiMapPosition::Colorbar(egui_heatmap::ColorbarValue::Step { index: 1, last: 1 }));
    let cell = map.convert_multimap2bitmap(egui_heatmap::MultiMapPoint { x: 1, y: 1 }, [30, 10], &state);
    assert_eq!(cell, MultiMapPosition::NotHovering);
}

#[test]
fn title_is_the_first_that_fits_centered_on_top() {
    let map = single(titled(false, vec![Some(bitmap(30, 1, 255)), Some(bitmap(4, 2, 200))]));
    let mut state = map.default_state();
    map.render(20, 10, &mut state).unwrap();
    let layout = map.compute_layout(20, 10, 1).unwrap();
    let under = Color::from_rgb(3, 3, 3);
    let mut raster = vec![under; 200];
    map.draw_titles_and_point_labels(&mut raster, 20, &state, layout);
    assert_eq!(raster[8], Color::gray(200));
    assert_eq!(raster[11 + 20], Color::gray(200));
    assert_eq!(raster[7], under);
    assert_eq!(raster[12], under);
    assert_eq!(raster[8 + 40], under);
}

#[test]
fn corner_labels_sit_in_the_corners() {
    let map = single(titled(true, Vec::new()));
    let mut state = map.default_state();
    map.render(20, 10, &mut state).unwrap();
    let layout = map.compute_layout(20, 10, 1).unwrap();
    let under = Color::from_rgb(3, 3, 3);
    let mut raster = vec![under; 200];
    let labels = vec![egui_heatmap::CornerLabels {
        left_top: Some(bitmap(1, 1, 50)),
        left_bottom: None,
        right_top: None,
        right_bottom: Some(bitmap(2, 1, 60)),
    }];
    map.draw_corner_labels(&mut raster, 20, &state, layout, &labels);
    assert_eq!(raster[0], Color::gray(50));
    assert_eq!(raster[18 + 9 * 20], Color::gray(60));
    assert_eq!(raster[19 + 9 * 20], Color::gray(60));
    assert_eq!(raster[9 * 20], under);
    assert_eq!(raster.iter().filter(|c| **c != under).count(), 3);
}

#[test]
fn colorbar_labels_take_the_first_narrow_rendering() {
    let mut map = single(titled(false, Vec::new()));
    map.colorbar = Some(egui_heatmap::Colorbar {
        gradient: egui_heatmap::Gradient(vec![Color::from_rgb(1, 0, 0)]),
        thickness: 4,
    });
    let under = Color::from_rgb(3, 3, 3);
    let mut raster = vec![under; 300];
    let candidates = vec![vec![bitmap(5, 2, 10), bitmap(3, 2, 20)], vec![bitmap(3, 2, 30)]];
    map.draw_colorbar_labels(&mut raster, 30, 10, &candidates);
    assert_eq!(raster[27], Color::gray(20));
    assert_eq!(raster[29 + 30], Color::gray(20));
    assert_eq!(raster[27 + 8 * 30], Color::gray(30));
    assert_eq!(raster[29 + 9 * 30], Color::gray(30));
    assert_eq!(raster.iter().filter(|c| **c != under).count(), 12);
    map.colorbar = None;
    let mut raster = vec![under; 300];
    map.draw_colorbar_labels(&mut raster, 30, 10, &candidates);
    assert!(raster.iter().all(|c| *c == under));
}

#[test]
fn zoom_keeps_the_point_under_the_pointer() {
    let mut map = single(Data { width: 10, height: 10, data: vec![Color::from_rgb(9, 9, 9); 100], ..titled(false, Vec::new()) });
    let mut state: ShowState<&str> = ShowState::new(map.default_state());
    state.render(&map, 10, 10, Color::from_rgb(0, 0, 0));
    let point = egui_heatmap::MultiMapPoint { x: 2, y: 2 };
    state.zoom_around(&mut map, 1, point, [10, 10]);
    let shown = state.currently_showing().unwrap();
    assert_eq!((shown.left_top.x, shown.left_top.y, shown.right_bottom.x, shown.right_bottom.y), (0, 0, 8, 8));
    let hit = map.convert_multimap2bitmap(point, [10, 10], &state.multimap);
    assert_eq!(hit.get_pos(), Some(p(2, 2)));
}
