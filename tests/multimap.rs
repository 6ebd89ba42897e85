use egui_heatmap::{
    compute_columns_rows, BitMapDrawable, Color, ColorWithThickness, Colorbar, ColorbarValue,
    CoordinatePoint, Data, DataWithMetadata, Font, FontOptions, Gradient, MultiMapPoint,
    MultiMapPosition, Overlay, RenderProblem, ShowMultiMap, ShowMultiMapSettings, ShowRect,
    ShowPoint,
};

fn font() -> FontOptions {
    FontOptions { font: Font::Font8x8, background_is_transparent: true, font_height: 18 }
}

fn overlay() -> Overlay {
    Overlay::new(font(), true, Vec::new(), "Example Title".to_string(), Vec::new())
}

fn digit_color(i: usize) -> Color {
    let v = (i % 10) as u8 * 20 + 10;
    Color::from_rgb(v, v, v)
}

fn dataset(width: usize, height: usize, x: i32, y: i32) -> Data {
    Data {
        width,
        height,
        data: (0..width * height).map(digit_color).collect(),
        first_point_coordinate: CoordinatePoint { x, y },
        overlay: overlay(),
    }
}

const LINE: Color = Color { r: 1, g: 2, b: 3, a: 255 };
const BACKGROUND: Color = Color { r: 4, g: 5, b: 6, a: 255 };
const UNSELECTED: Color = Color { r: 7, g: 8, b: 9, a: 255 };
const SELECTED: Color = Color { r: 250, g: 251, b: 252, a: 255 };

fn engine(data: Vec<Data>, factor: usize) -> ShowMultiMap<usize> {
    let gradient = Gradient(vec![
        Color::from_rgb(200, 0, 0),
        Color::from_rgb(0, 200, 0),
        Color::from_rgb(0, 0, 200),
    ]);
    ShowMultiMap::with_settings(
        data.into_iter().enumerate().map(|(key, data)| DataWithMetadata { key, data }).collect(),
        ShowMultiMapSettings {
            boundary_between_data: ColorWithThickness { color: LINE, thickness: 2 },
            colorbar: Some(Colorbar { gradient, thickness: 4 }),
            background: BACKGROUND,
            boundary_unselected: ColorWithThickness { color: UNSELECTED, thickness: 1 },
            boundary_selected: SELECTED,
            boundary_factor_min: factor,
        },
    )
}

fn four_datasets() -> Vec<Data> {
    vec![dataset(5, 5, 0, 0), dataset(5, 5, 1, 0), dataset(5, 5, 0, 1), dataset(5, 5, 1, 1)]
}

fn print_raster(rendered: &[Color], width: usize) {
    for (i, line) in rendered.chunks(width).enumerate() {
        let text: String = line
            .iter()
            .map(|c| match *c {
                LINE => '-',
                BACKGROUND => '.',
                UNSELECTED => 'r',
                SELECTED => 'w',
                c => char::from(b'0' + ((c.r.saturating_sub(10)) / 20) % 10),
            })
            .collect();
        println!("{i:03},{text}");
    }
}

#[test]
fn render_simple_tests() {
    let width = 66;
    let height = 23;
    let map = engine(four_datasets(), 7);
    let mut state = map.default_state();
    let rendered = map.render(width, height, &mut state).unwrap();
    print_raster(&rendered, width);
}

#[test]
fn render_simple_tests2() {
    let width = 66;
    let height = 23;
    let map = engine(vec![dataset(9, 6, -1, -1)], 3);
    let mut state = map.default_state();
    let rendered = map.render(width, height, &mut state).unwrap();
    print_raster(&rendered, width);
}

#[test]
fn compute_columns_rows_test() {
    for (i, a) in [
        (0, (0, 0)),
        (1, (1, 1)),
        (2, (2, 1)),
        (3, (2, 2)),
        (4, (2, 2)),
        (5, (3, 2)),
        (6, (3, 2)),
        (7, (3, 3)),
        (8, (3, 3)),
        (9, (3, 3)),
        (10, (4, 3)),
        (11, (4, 3)),
        (12, (4, 3)),
        (13, (4, 4)),
        (14, (4, 4)),
        (15, (4, 4)),
        (16, (4, 4)),
        (17, (5, 4)),
    ] {
        assert_eq!(a, compute_columns_rows(i));
    }
}

#[test]
fn grid_is_minimal_for_many_counts() {
    for count in 1..2000usize {
        let (columns, rows) = compute_columns_rows(count);
        assert!(rows * columns >= count);
        assert!((rows - 1) * columns < count);
        assert!(columns * columns >= count && (columns - 1) * (columns - 1) < count);
    }
}

#[test]
fn four_datasets_fill_the_raster() {
    assert_eq!(compute_columns_rows(4), (2, 2));
    let map = engine(four_datasets(), 7);
    let mut state = map.default_state();
    let rendered = map.render(66, 23, &mut state).unwrap();
    assert_eq!(rendered.len(), 66 * 23);
    // the colorbar separator and the colorbar itself
    assert_eq!(rendered[66 - 4 - 2], LINE);
    assert_eq!(rendered[66 - 1], Color::from_rgb(0, 0, 200));
    assert_eq!(rendered[22 * 66 + 65], Color::from_rgb(200, 0, 0));
}

#[test]
fn subsampled_dataset_has_no_outline() {
    for factor in [0, 1, 3, 100] {
        let map = engine(vec![dataset(200, 150, 0, 0)], factor);
        let mut state = map.default_state();
        let rendered = map.render(66, 23, &mut state).unwrap();
        assert!(!rendered.contains(&UNSELECTED));
        assert!(!rendered.contains(&SELECTED));
    }
}

#[test]
fn all_hidden_gives_count_is_zero_and_sentinel() {
    let map = engine(four_datasets(), 7);
    let mut state = map.default_state();
    state.to_plot = vec![false; 4];
    assert_eq!(map.render(66, 23, &mut state), Err(RenderProblem::CountIsZero));
    let sentinel = Color::from_rgb(255, 215, 0);
    let (frame, problem) = map.render_frame(66, 23, &mut state, sentinel);
    assert_eq!(problem, Some(RenderProblem::CountIsZero));
    assert_eq!(frame.len(), 66 * 23);
    assert!(frame.iter().all(|c| *c == sentinel));
}

#[test]
fn no_data_and_narrow_raster_are_reported() {
    let map = engine(Vec::new(), 7);
    let mut state = map.default_state();
    assert_eq!(map.render(10, 10, &mut state), Err(RenderProblem::NoData));
    assert!(state.shown_rectangle.is_none());
    let map = engine(four_datasets(), 7);
    let mut state = map.default_state();
    assert_eq!(map.render(5, 10, &mut state), Err(RenderProblem::WidthSmallerThanColorBar));
    assert_eq!(
        map.convert_multimap2bitmap(MultiMapPoint { x: 1, y: 1 }, [5, 10], &state),
        MultiMapPosition::NotHovering
    );
}

#[test]
fn first_render_shows_the_union_of_all_datasets() {
    let map = engine(four_datasets(), 7);
    let mut state = map.default_state();
    map.render(66, 23, &mut state).unwrap();
    let r = state.currently_showing().unwrap();
    assert_eq!((r.left_top.x, r.left_top.y, r.right_bottom.x, r.right_bottom.y), (0, 0, 6, 6));
    state.to_plot = vec![true, false, false, false];
    map.home(&mut state);
    let r = state.currently_showing().unwrap();
    assert_eq!((r.left_top.x, r.left_top.y, r.right_bottom.x, r.right_bottom.y), (0, 0, 5, 5));
}

#[test]
fn render_and_hit_test_agree() {
    for factor in [0, 3, 100] {
        let map = engine(vec![dataset(9, 6, -1, -1), dataset(3, 3, 2, 2)], factor);
        let mut state = map.default_state();
        let (width, height) = (66, 23);
        let rendered = map.render(width, height, &mut state).unwrap();
        for y in 0..height {
            for x in 0..width {
                let c = rendered[x + y * width];
                let hit = map.convert_multimap2bitmap(MultiMapPoint { x, y }, [width, height], &state);
                match hit {
                    MultiMapPosition::Pixel(index, p) => {
                        let expected = map.data[index].data.lookup(&p).unwrap().remove_alpha();
                        assert!(c == expected || c == UNSELECTED, "pixel {x},{y}");
                    }
                    MultiMapPosition::NoData(_, _) => assert!(c == BACKGROUND || c == UNSELECTED),
                    MultiMapPosition::Colorbar(_) => assert!(x >= width - 4),
                    MultiMapPosition::NotHovering => {
                        assert!(c == BACKGROUND || c == LINE, "pixel {x},{y}")
                    }
                }
            }
        }
    }
}

#[test]
fn magnified_points_map_to_their_coordinates() {
    // one data set of 2x2 points in a 20x10 raster without colorbar lines
    let mut map = engine(vec![dataset(2, 2, 10, 20)], 100);
    map.colorbar = None;
    let mut state = map.default_state();
    let rendered = map.render(20, 10, &mut state).unwrap();
    // 10 pixels per point horizontally, 5 vertically, no margin
    let hit = map.convert_multimap2bitmap(MultiMapPoint { x: 15, y: 7 }, [20, 10], &state);
    assert_eq!(hit, MultiMapPosition::Pixel(0, CoordinatePoint { x: 11, y: 21 }));
    assert_eq!(rendered[15 + 7 * 20], digit_color(3));
    let hit = map.convert_multimap2bitmap(MultiMapPoint { x: 2, y: 1 }, [20, 10], &state);
    assert_eq!(hit, MultiMapPosition::Pixel(0, CoordinatePoint { x: 10, y: 20 }));
}

#[test]
fn outline_marks_selected_points() {
    let mut map = engine(vec![dataset(2, 2, 0, 0)], 1);
    map.colorbar = None;
    let mut state = map.default_state();
    state.selected = vec![CoordinatePoint { x: 1, y: 1 }];
    let rendered = map.render(20, 20, &mut state).unwrap();
    // points are 10x10 pixels; their edges are outlines
    assert_eq!(rendered[0], UNSELECTED);
    assert_eq!(rendered[10 + 10 * 20], SELECTED);
    assert_eq!(rendered[15 + 15 * 20], digit_color(3));
}

#[test]
fn dragged_area_is_darkened() {
    let mut map = engine(vec![dataset(2, 2, 0, 0)], 100);
    map.colorbar = None;
    let mut state = map.default_state();
    map.drag_start(&CoordinatePoint { x: 0, y: 0 });
    let rendered = map.render(20, 20, &mut state).unwrap();
    let c = digit_color(0);
    assert_eq!(rendered[5 + 5 * 20], c.darken().remove_alpha());
    assert_eq!(c.darken(), Color { r: 5, g: 5, b: 5, a: 128 });
    assert_eq!(rendered[15 + 15 * 20], digit_color(3));
}

#[test]
fn colorbar_hit_test_gives_steps() {
    let map = engine(four_datasets(), 7);
    let mut state = map.default_state();
    map.render(66, 23, &mut state).unwrap();
    let top = map.convert_multimap2bitmap(MultiMapPoint { x: 65, y: 0 }, [66, 23], &state);
    assert_eq!(top, MultiMapPosition::Colorbar(ColorbarValue::Step { index: 2, last: 2 }));
    let bottom = map.convert_multimap2bitmap(MultiMapPoint { x: 65, y: 22 }, [66, 23], &state);
    assert_eq!(bottom, MultiMapPosition::Colorbar(ColorbarValue::Step { index: 0, last: 2 }));
    let gap = map.convert_multimap2bitmap(MultiMapPoint { x: 61, y: 3 }, [66, 23], &state);
    assert_eq!(gap, MultiMapPosition::NotHovering);
}

fn rect(l: i32, t: i32, r: i32, b: i32) -> ShowRect {
    ShowRect { left_top: ShowPoint { x: l, y: t }, right_bottom: ShowPoint { x: r, y: b } }
}

#[test]
fn zoom_keeps_at_least_four_points() {
    let mut map = engine(four_datasets(), 7);
    let mut r = rect(0, 0, 10, 4);
    map.zoom(1, &mut r);
    assert_eq!(r, rect(1, 0, 9, 4));
    map.zoom(2, &mut r);
    assert_eq!(r, rect(3, 0, 7, 4));
    map.zoom(2, &mut r);
    assert_eq!(r, rect(3, 0, 7, 4));
    map.zoom(-3, &mut r);
    assert_eq!(r, rect(0, -3, 10, 7));
    for start in 4..12 {
        for delta in -3..4 {
            let mut r = rect(0, 0, start, start);
            map.zoom(delta, &mut r);
            assert!(r.right_bottom.x - r.left_top.x >= 4);
        }
    }
}

#[test]
fn drag_release_needs_more_than_four_points() {
    let mut map = engine(four_datasets(), 7);
    let mut r = rect(0, 0, 10, 10);
    map.drag_start(&CoordinatePoint { x: 5, y: 5 });
    assert!(map.drag_is_ongoing(&CoordinatePoint { x: 2, y: 8 }));
    assert!(!map.drag_is_ongoing(&CoordinatePoint { x: 2, y: 8 }));
    map.drag_release(Some(&CoordinatePoint { x: 2, y: 8 }), &mut r);
    assert_eq!(r, rect(0, 0, 10, 10));
    assert!(map.drag_area.is_none());
    map.drag_start(&CoordinatePoint { x: 5, y: 5 });
    map.drag_release(Some(&CoordinatePoint { x: 1, y: 9 }), &mut r);
    assert_eq!(r, rect(1, 5, 6, 10));
    map.drag_release(Some(&CoordinatePoint { x: 30, y: 30 }), &mut r);
    assert_eq!(r, rect(1, 5, 6, 10));
}

#[test]
fn select_replaces_or_toggles() {
    let mut map = engine(four_datasets(), 7);
    let p = CoordinatePoint { x: 1, y: 2 };
    let q = CoordinatePoint { x: 3, y: 4 };
    let mut selected = vec![q];
    map.select(&p, false, &mut selected);
    assert_eq!(selected, vec![p]);
    map.select(&p, false, &mut selected);
    assert!(selected.is_empty());
    map.select(&p, true, &mut selected);
    map.select(&q, true, &mut selected);
    assert_eq!(selected, vec![p, q]);
    map.select(&p, true, &mut selected);
    assert_eq!(selected, vec![q]);
    let mut selected = vec![p, q];
    map.select(&p, false, &mut selected);
    assert_eq!(selected, vec![p]);
}

#[test]
fn pan_and_center() {
    let mut map = engine(four_datasets(), 7);
    let mut r = rect(0, 0, 5, 4);
    map.translate(CoordinatePoint { x: 3, y: -2 }, &mut r);
    assert_eq!(r, rect(3, -2, 8, 2));
    map.translate_keyboard(egui_heatmap::KeyBoardDirection::Up, &mut r);
    assert_eq!(r, rect(3, -3, 8, 1));
    map.center_to(&CoordinatePoint { x: 10, y: 10 }, &mut r);
    assert_eq!(r, rect(7, 8, 12, 12));
}

#[test]
fn colorbar_steps_round_trip() {
    for n in 2..20usize {
        let g = Gradient(vec![Color::from_rgb(0, 0, 0); n]);
        let mut previous = 0;
        for i in 0..n {
            match g.fetch_step(i, n - 1) {
                ColorbarValue::Step { index, last } => {
                    assert_eq!((index, last), (i, n - 1));
                    assert!(index >= previous);
                    previous = index;
                }
                other => panic!("unexpected {other:?}"),
            }
        }
    }
    assert_eq!(Gradient::<Color>(Vec::new()).fetch_step(1, 2), ColorbarValue::Undefined);
    assert_eq!(Gradient(vec![BACKGROUND]).fetch_step(1, 2), ColorbarValue::Middle);
    let g = Gradient(vec![LINE, BACKGROUND, UNSELECTED]);
    assert_eq!(g.fetch_step(5, 2), ColorbarValue::Step { index: 2, last: 2 });
    assert_eq!(g.element_at(0, 3), LINE);
    assert_eq!(g.element_at(2, 3), UNSELECTED);
}

#[test]
fn gradient_through_center() {
    let c = |v: u8| Color::from_rgb(v, 0, 0);
    let g = Gradient::through_center(c(1), c(2), c(3), 3, Vec::new(), Vec::new());
    assert_eq!(g.0, vec![c(1), c(2), c(3)]);
    let g = Gradient::through_center(c(1), c(2), c(3), 1, Vec::new(), Vec::new());
    assert_eq!(g.0, vec![c(2)]);
    assert_eq!(Gradient::<Color>::half_steps(5), 3);
    assert_eq!(Gradient::<Color>::half_steps(6), 6);
    let g = Gradient::through_center(c(1), c(2), c(3), 5, vec![c(10), c(11), c(12)], vec![c(20), c(21), c(22)]);
    assert_eq!(g.0, vec![c(10), c(11), c(20), c(21), c(22)]);
    let first: Vec<Color> = (0..6).map(|i| c(10 + i)).collect();
    let second: Vec<Color> = (0..6).map(|i| c(20 + i)).collect();
    let g = Gradient::through_center(c(1), c(2), c(3), 6, first, second);
    assert_eq!(g.0, vec![c(10), c(12), c(14), c(21), c(23), c(25)]);
}
