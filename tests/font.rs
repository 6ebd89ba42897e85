use egui_heatmap::{BitMapText, Color};

fn chars(s: &str) -> Vec<char> {
    s.chars().collect()
}

#[test]
fn font8x8_renders_trimmed_glyphs() {
    let b = BitMapText::font8x8(&chars("I"), 1).unwrap();
    assert_eq!((b.width, b.height), (4, 8));
    assert_eq!(b.fetch(0, 0), Some(255));
    assert_eq!(b.fetch(0, 1), Some(0));
    assert_eq!(b.fetch(1, 1), Some(255));
    assert_eq!(b.fetch(3, 7), Some(0));
    assert_eq!(b.fetch(4, 0), None);
    let two = BitMapText::font8x8(&chars("II"), 1).unwrap();
    assert_eq!(two.width, 9);
    assert_eq!(two.fetch(4, 0), Some(0));
    assert_eq!(two.fetch(5, 0), Some(255));
}

#[test]
fn font8x8_scales_and_replaces() {
    let b = BitMapText::font8x8(&chars("I"), 2).unwrap();
    assert_eq!((b.width, b.height), (8, 16));
    assert_eq!(b.fetch(1, 1), Some(255));
    assert_eq!(b.fetch(1, 2), Some(0));
    assert!(BitMapText::font8x8(&chars(" "), 3).is_none());
    assert!(BitMapText::font8x8(&chars(""), 1).is_none());
    let cross = BitMapText::font8x8(&chars("é"), 1).unwrap();
    assert_eq!(cross.width, 8);
    assert_eq!(cross.fetch(2, 0), Some(255));
    assert_eq!(cross.fetch(0, 0), Some(0));
    assert_eq!(cross.fetch(0, 3), Some(255));
}

#[test]
fn labels_blend_into_the_raster() {
    let label = BitMapText { data: vec![0, 100, 200, 0], width: 2, height: 2 };
    let under = Color { r: 100, g: 10, b: 0, a: 7 };
    let background = Color::from_rgb(1, 1, 1);
    let mut raster = vec![under; 9];
    label.draw(&mut raster, 1, 1, 3, true, background);
    assert_eq!(raster[4], under);
    assert_eq!(raster[5], Color { r: 200, g: 110, b: 100, a: 255 });
    assert_eq!(raster[7], Color { r: 255, g: 210, b: 200, a: 255 });
    assert_eq!(raster[8], under);
    assert_eq!(raster[0], under);
    let mut raster = vec![under; 9];
    label.draw(&mut raster, 2, 2, 3, false, background);
    assert_eq!(raster[8], background);
    assert_eq!(raster[7], under);
    let mut raster = vec![under; 9];
    label.draw(&mut raster, 0, 0, 3, false, background);
    assert_eq!(raster[1], Color { r: 100, g: 100, b: 100, a: 0 });
}
