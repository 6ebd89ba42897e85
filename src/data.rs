use vstd::prelude::*;

use crate::colors::Color;
use crate::font::{BitMapText, FontOptions};
use crate::geometry::{fits_i32, BitMapPoint, CoordinatePoint, CoordinateRect};

verus! {

/// A color together with a thickness in pixels.
#[derive(Clone, Copy, Debug, PartialEq, Eq, Structural)]
pub struct ColorWithThickness {
    /// Color of this item
    pub color: Color,
    /// Thickness in pixels
    pub thickness: usize,
}

/// Two bitmaps hold the same pixels.
pub open spec fn same_bitmap(a: BitMapText, b: BitMapText) -> bool {
    &&& a.data@ == b.data@
    &&& a.width == b.width
    &&& a.height == b.height
}

/// The label that the last entry for `key` in `labels` gives, if any.
pub open spec fn last_label(labels: Seq<(CoordinatePoint, BitMapText)>, key: CoordinatePoint) -> Option<
    BitMapText,
>
    decreases labels.len(),
{
    if labels.len() == 0 {
        None
    } else if labels.last().0 == key {
        Some(labels.last().1)
    } else {
        last_label(labels.drop_last(), key)
    }
}

/// Text shown over a data set: a title, labels at single points, and
/// optionally the coordinates of the shown corners.
#[derive(Clone, Debug)]
pub struct Overlay {
    /// Font of all texts of this overlay
    pub font: FontOptions,
    /// Each labelled point with the index of its bitmap
    pub overlay_indices: Vec<(CoordinatePoint, usize)>,
    /// The distinct label bitmaps
    pub overlay_bitmaps: Vec<BitMapText>,
    /// Whether the coordinates of the shown corners are drawn
    pub show_coordinates: bool,
    /// Title of the data set
    pub title: String,
    /// The title rendered at the font height and then at each smaller height
    /// down to 9 pixels; `None` where rendering failed
    pub title_bitmaps: Vec<Option<BitMapText>>,
}

impl Overlay {
    /// Labels refer to stored bitmaps, each point at most once.
    pub open spec fn wf(&self) -> bool {
        &&& forall|i: int|
            0 <= i < self.overlay_indices@.len() ==> #[trigger] self.overlay_indices@[i].1
                < self.overlay_bitmaps@.len()
        &&& forall|i: int, j: int|
            0 <= i < j < self.overlay_indices@.len() ==> #[trigger] self.overlay_indices@[i].0
                != #[trigger] self.overlay_indices@[j].0
        &&& forall|i: int| 0 <= i < self.overlay_bitmaps@.len() ==> #[trigger] self.overlay_bitmaps@[i].wf()
        &&& forall|i: int|
            0 <= i < self.title_bitmaps@.len() && #[trigger] self.title_bitmaps@[i] is Some
                ==> self.title_bitmaps@[i]->Some_0.wf()
    }

    /// The number of point labels.
    pub open spec fn label_count(&self) -> int {
        self.overlay_indices@.len() as int
    }

    /// The point of label `i`.
    pub open spec fn label_point(&self, i: int) -> CoordinatePoint {
        self.overlay_indices@[i].0
    }

    /// The bitmap of label `i`.
    pub open spec fn label_bitmap(&self, i: int) -> BitMapText {
        self.overlay_bitmaps@[self.overlay_indices@[i].1 as int]
    }

    /// The label at `key`, if any.
    pub open spec fn label_at(&self, key: CoordinatePoint) -> Option<BitMapText> {
        if exists|i: int| 0 <= i < self.label_count() && self.label_point(i) == key {
            Some(
                self.label_bitmap(
                    choose|i: int| 0 <= i < self.label_count() && self.label_point(i) == key,
                ),
            )
        } else {
            None
        }
    }

    /// Builds an overlay. A later label for a point replaces an earlier one;
    /// labels whose bitmaps are equal share one stored bitmap.
    pub fn new(
        font: FontOptions,
        show_coordinates: bool,
        labels: Vec<(CoordinatePoint, BitMapText)>,
        title: String,
        title_bitmaps: Vec<Option<BitMapText>>,
    ) -> (r: Overlay)
        requires
            forall|i: int| 0 <= i < labels@.len() ==> (#[trigger] labels@[i]).1.wf(),
            forall|i: int|
                0 <= i < title_bitmaps@.len() && #[trigger] title_bitmaps@[i] is Some
                    ==> title_bitmaps@[i]->Some_0.wf(),
        ensures
            r.wf(),
            forall|i: int, j: int|
                0 <= i < j < r.overlay_bitmaps@.len() ==> !same_bitmap(
                    #[trigger] r.overlay_bitmaps@[i],
                    #[trigger] r.overlay_bitmaps@[j],
                ),
            r.font == font,
            r.show_coordinates == show_coordinates,
            r.title@ == title@,
            r.title_bitmaps@ == title_bitmaps@,
            forall|key: CoordinatePoint|
                #[trigger] r.label_at(key) is Some <==> last_label(labels@, key) is Some,
            forall|key: CoordinatePoint|
                #[trigger] r.label_at(key) is Some ==> same_bitmap(
                    r.label_at(key)->Some_0,
                    last_label(labels@, key)->Some_0,
                ),
    {
        let mut overlay_indices: Vec<(CoordinatePoint, usize)> = Vec::new();
        let mut overlay_bitmaps: Vec<BitMapText> = Vec::new();
        let mut n: usize = 0;
        while n < labels.len()
            invariant
                n <= labels@.len(),
                forall|i: int| 0 <= i < labels@.len() ==> (#[trigger] labels@[i]).1.wf(),
                forall|i: int|
                    0 <= i < overlay_indices@.len() ==> #[trigger] overlay_indices@[i].1
                        < overlay_bitmaps@.len(),
                forall|i: int, j: int|
                    0 <= i < j < overlay_indices@.len() ==> #[trigger] overlay_indices@[i].0
                        != #[trigger] overlay_indices@[j].0,
                forall|i: int| 0 <= i < overlay_bitmaps@.len() ==> #[trigger] overlay_bitmaps@[i].wf(),
                forall|i: int, j: int|
                    0 <= i < j < overlay_bitmaps@.len() ==> !same_bitmap(
                        #[trigger] overlay_bitmaps@[i],
                        #[trigger] overlay_bitmaps@[j],
                    ),
                forall|key: CoordinatePoint|
                    (exists|i: int| 0 <= i < overlay_indices@.len() && overlay_indices@[i].0 == key)
                        <==> #[trigger] last_label(labels@.subrange(0, n as int), key) is Some,
                forall|i: int|
                    0 <= i < overlay_indices@.len() ==> same_bitmap(
                        overlay_bitmaps@[(#[trigger] overlay_indices@[i]).1 as int],
                        last_label(labels@.subrange(0, n as int), overlay_indices@[i].0)->Some_0,
                    ),
            decreases labels@.len() - n,
        {
            let key = labels[n].0;
            let bitmap = &labels[n].1;
            let index = find_bitmap(&overlay_bitmaps, bitmap);
            let index = match index {
                Some(i) => i,
                None => {
                    overlay_bitmaps.push(bitmap.clone_bitmap());
                    overlay_bitmaps.len() - 1
                },
            };
            let ghost prefix = labels@.subrange(0, n as int);
            let ghost next = labels@.subrange(0, n + 1);
            assert(next.drop_last() == prefix);
            assert(next.last() == labels@[n as int]);
            let slot = find_key(&overlay_indices, key);
            let ghost before_indices = overlay_indices@;
            match slot {
                Some(i) => {
                    overlay_indices.set(i, (key, index));
                },
                None => {
                    overlay_indices.push((key, index));
                },
            }
            proof {
                assert forall|k: CoordinatePoint|
                    (exists|j: int| 0 <= j < overlay_indices@.len() && overlay_indices@[j].0 == k)
                        <==> #[trigger] last_label(next, k) is Some by {
                    if k != key {
                        if exists|j: int| 0 <= j < overlay_indices@.len() && overlay_indices@[j].0 == k {
                            let j = choose|j: int| 0 <= j < overlay_indices@.len() && overlay_indices@[j].0 == k;
                            assert(before_indices[j].0 == k);
                        }
                        if exists|j: int| 0 <= j < before_indices.len() && before_indices[j].0 == k {
                            let j = choose|j: int| 0 <= j < before_indices.len() && before_indices[j].0 == k;
                            assert(overlay_indices@[j].0 == k);
                        }
                    } else {
                        match slot {
                            Some(i) => {
                                assert(overlay_indices@[i as int].0 == key);
                            },
                            None => {
                                assert(overlay_indices@[before_indices.len() as int].0 == key);
                            },
                        }
                    }
                }
            }
            n = n + 1;
        }
        assert(labels@.subrange(0, labels@.len() as int) == labels@);
        assert forall|key: CoordinatePoint|
            (exists|i: int| 0 <= i < overlay_indices@.len() && overlay_indices@[i].0 == key)
                <==> #[trigger] last_label(labels@, key) is Some by {
            assert(last_label(labels@.subrange(0, n as int), key) is Some <==> (exists|i: int|
                0 <= i < overlay_indices@.len() && overlay_indices@[i].0 == key));
        }
        let r = Overlay {
            font,
            overlay_indices,
            overlay_bitmaps,
            show_coordinates,
            title,
            title_bitmaps,
        };
        proof {
            assert forall|key: CoordinatePoint|
                #[trigger] r.label_at(key) is Some <==> last_label(labels@, key) is Some by {
                if exists|i: int| 0 <= i < r.overlay_indices@.len() && r.overlay_indices@[i].0 == key {
                    let i = choose|i: int|
                        0 <= i < r.overlay_indices@.len() && r.overlay_indices@[i].0 == key;
                    assert(r.label_point(i) == key);
                }
                if r.label_at(key) is Some {
                    let i = choose|i: int| 0 <= i < r.label_count() && r.label_point(i) == key;
                    assert(r.overlay_indices@[i].0 == key);
                }
            }
            assert forall|key: CoordinatePoint| #[trigger] r.label_at(key) is Some ==> same_bitmap(
                r.label_at(key)->Some_0,
                last_label(labels@, key)->Some_0,
            ) by {
                if r.label_at(key) is Some {
                    let i = choose|i: int| 0 <= i < r.label_count() && r.label_point(i) == key;
                    assert(same_bitmap(
                        r.overlay_bitmaps@[r.overlay_indices@[i].1 as int],
                        last_label(labels@, r.overlay_indices@[i].0)->Some_0,
                    ));
                }
            }
        }
        r
    }

    /// The number of point labels.
    pub fn overlay_count(&self) -> (r: usize)
        ensures
            r == self.label_count(),
    {
        self.overlay_indices.len()
    }

    /// The point and bitmap of label `i`.
    pub fn overlay(&self, i: usize) -> (r: (CoordinatePoint, &BitMapText))
        requires
            self.wf(),
            i < self.label_count(),
        ensures
            r.0 == self.label_point(i as int),
            *r.1 == self.label_bitmap(i as int),
    {
        let (point, index) = self.overlay_indices[i];
        (point, &self.overlay_bitmaps[index])
    }
}

/// The position of `key` among the labelled points, if it is there.
fn find_key(indices: &Vec<(CoordinatePoint, usize)>, key: CoordinatePoint) -> (r: Option<usize>)
    ensures
        r is Some ==> r->Some_0 < indices@.len() && indices@[r->Some_0 as int].0 == key,
        r is None ==> forall|j: int| 0 <= j < indices@.len() ==> indices@[j].0 != key,
{
    let mut i: usize = 0;
    while i < indices.len()
        invariant
            i <= indices@.len(),
            forall|j: int| 0 <= j < i ==> indices@[j].0 != key,
        decreases indices@.len() - i,
    {
        if indices[i].0 == key {
            return Some(i);
        }
        i = i + 1;
    }
    None
}

/// The index of a stored bitmap equal to `bitmap`, if there is one.
fn find_bitmap(bitmaps: &Vec<BitMapText>, bitmap: &BitMapText) -> (r: Option<usize>)
    ensures
        r is Some ==> r->Some_0 < bitmaps@.len() && same_bitmap(bitmaps@[r->Some_0 as int], *bitmap),
        r is None ==> forall|j: int| 0 <= j < bitmaps@.len() ==> !same_bitmap(#[trigger] bitmaps@[j], *bitmap),
{
    let mut i: usize = 0;
    while i < bitmaps.len()
        invariant
            i <= bitmaps@.len(),
            forall|j: int| 0 <= j < i ==> !same_bitmap(#[trigger] bitmaps@[j], *bitmap),
        decreases bitmaps@.len() - i,
    {
        if bitmaps[i].same_as(bitmap) {
            return Some(i);
        }
        i = i + 1;
    }
    None
}

impl BitMapText {
    /// Both bitmaps hold the same pixels.
    pub fn same_as(&self, other: &BitMapText) -> (r: bool)
        ensures
            r == same_bitmap(*self, *other),
    {
        if self.width != other.width || self.height != other.height || self.data.len()
            != other.data.len() {
            return false;
        }
        let mut i: usize = 0;
        while i < self.data.len()
            invariant
                self.data@.len() == other.data@.len(),
                i <= self.data@.len(),
                forall|j: int| 0 <= j < i ==> self.data@[j] == other.data@[j],
            decreases self.data@.len() - i,
        {
            if self.data[i] != other.data[i] {
                return false;
            }
            i = i + 1;
        }
        assert(self.data@ == other.data@);
        true
    }

    /// A copy of this bitmap.
    pub fn clone_bitmap(&self) -> (r: BitMapText)
        ensures
            same_bitmap(r, *self),
    {
        let mut data: Vec<u8> = Vec::new();
        let mut i: usize = 0;
        while i < self.data.len()
            invariant
                i <= self.data@.len(),
                data@ == self.data@.subrange(0, i as int),
            decreases self.data@.len() - i,
        {
            data.push(self.data[i]);
            i = i + 1;
        }
        assert(self.data@.subrange(0, self.data@.len() as int) == self.data@);
        BitMapText { data, width: self.width, height: self.height }
    }
}

/// A bitmap placed in data coordinates, with its overlay text.
#[derive(Clone, Debug)]
pub struct Data {
    /// Width of the bitmap in points
    pub width: usize,
    /// Height of the bitmap in points
    pub height: usize,
    /// Color of each point, row by row
    pub data: Vec<Color>,
    /// Data coordinate of the first point (row 0, column 0)
    pub first_point_coordinate: CoordinatePoint,
    /// Overlay text
    pub overlay: Overlay,
}

impl Data {
    /// The bitmap is not empty, its colors fill it, and its bounding box
    /// has representable corners.
    pub open spec fn wf(&self) -> bool {
        &&& self.width > 0
        &&& self.height > 0
        &&& self.data@.len() == self.width * self.height
        &&& fits_i32(self.first_point_coordinate.x + self.width)
        &&& fits_i32(self.first_point_coordinate.y + self.height)
        &&& self.overlay.wf()
    }

    /// The color at data coordinate `(x, y)`, if the bitmap covers it.
    pub open spec fn color_at(&self, x: int, y: int) -> Option<Color> {
        let dx = x - self.first_point_coordinate.x;
        let dy = y - self.first_point_coordinate.y;
        if 0 <= dx < self.width && 0 <= dy < self.height {
            Some(self.data@[dx + dy * self.width])
        } else {
            None
        }
    }

    /// The color at data coordinate `(x, y)`, if the bitmap covers it.
    pub fn lookup_at(&self, x: i128, y: i128) -> (r: Option<Color>)
        requires
            self.wf(),
        ensures
            r == self.color_at(x as int, y as int),
    {
        if x < i64::MIN as i128 || x > i64::MAX as i128 || y < i64::MIN as i128 || y
            > i64::MAX as i128 {
            return None;
        }
        let dx = x - self.first_point_coordinate.x as i128;
        let dy = y - self.first_point_coordinate.y as i128;
        if dx < 0 || dy < 0 || dx >= self.width as i128 || dy >= self.height as i128 {
            None
        } else {
            let dx = dx as usize;
            let dy = dy as usize;
            proof {
                assert(dx + dy * self.width < self.width * self.height) by (nonlinear_arith)
                    requires dx < self.width, dy < self.height;
            }
            assert(self.data@.len() == self.data.len());
            Some(self.data[dx + dy * self.width])
        }
    }

    /// The color at `point`, if the bitmap covers it.
    pub fn lookup(&self, point: &CoordinatePoint) -> (r: Option<Color>)
        requires
            self.wf(),
        ensures
            r == self.color_at(point.x as int, point.y as int),
    {
        self.lookup_at(point.x as i128, point.y as i128)
    }

    /// The rectangle of data coordinates that the bitmap covers.
    pub fn bounding_box(&self) -> (r: CoordinateRect)
        requires
            self.wf(),
        ensures
            r.left_top == self.first_point_coordinate,
            r.right_bottom.x == self.first_point_coordinate.x + self.width,
            r.right_bottom.y == self.first_point_coordinate.y + self.height,
    {
        let left_top = self.first_point_coordinate;
        let right_bottom = CoordinatePoint {
            x: (left_top.x as i64 + self.width as i64) as i32,
            y: (left_top.y as i64 + self.height as i64) as i32,
        };
        CoordinateRect { left_top, right_bottom }
    }
}

/// The colors of a bitmap, row by row.
pub struct BitmapData {
    /// Width of the bitmap
    pub width: i32,
    /// Height of the bitmap
    pub height: i32,
    /// Colors of the points, row by row
    pub pixels: Vec<Color>,
}

impl BitmapData {
    /// The size matches the colors.
    pub open spec fn wf(&self) -> bool {
        &&& self.width >= 0
        &&& self.height >= 0
        &&& self.pixels@.len() == self.width * self.height
    }

    /// `p` lies on the bitmap.
    pub open spec fn covers(&self, p: BitMapPoint) -> bool {
        0 <= p.x < self.width && 0 <= p.y < self.height
    }

    pub open spec fn index_of(&self, p: BitMapPoint) -> int {
        p.x + p.y * self.width
    }

    fn index(&self, p: BitMapPoint) -> (r: usize)
        requires
            self.wf(),
            self.covers(p),
        ensures
            r == self.index_of(p),
            r < self.pixels@.len(),
    {
        assert(self.pixels@.len() == self.pixels.len());
        proof {
            assert(p.x + p.y * self.width < self.width * self.height) by (nonlinear_arith)
                requires 0 <= p.x < self.width, 0 <= p.y < self.height;
            assert(p.y * self.width >= 0) by (nonlinear_arith)
                requires 0 <= p.y, 0 <= self.width;
        }
        p.x as usize + p.y as usize * self.width as usize
    }

    /// The color at `p`, if `p` lies on the bitmap.
    pub fn get_color_at_point(&self, p: BitMapPoint) -> (r: Option<Color>)
        requires
            self.wf(),
        ensures
            r == (if self.covers(p) {
                Some(self.pixels@[self.index_of(p)])
            } else {
                None
            }),
    {
        if p.x < 0 || p.y < 0 || p.x >= self.width || p.y >= self.height {
            return None;
        }
        let i = self.index(p);
        Some(self.pixels[i])
    }

    /// Sets the color at `p` and returns the previous one, if `p` lies on
    /// the bitmap; otherwise nothing changes. The bitmap never grows.
    pub fn set_color_at_point(&mut self, p: BitMapPoint, c: Color) -> (r: Option<Color>)
        requires
            old(self).wf(),
        ensures
            final(self).wf(),
            final(self).width == old(self).width,
            final(self).height == old(self).height,
            old(self).covers(p) ==> r == Some(old(self).pixels@[old(self).index_of(p)])
                && final(self).pixels@ == old(self).pixels@.update(old(self).index_of(p), c),
            !old(self).covers(p) ==> r is None && final(self).pixels@ == old(self).pixels@,
    {
        if p.x < 0 || p.y < 0 || p.x >= self.width || p.y >= self.height {
            return None;
        }
        let i = self.index(p);
        let previous = self.pixels[i];
        self.pixels.set(i, c);
        Some(previous)
    }
}

impl BitMapText {
    /// Whether the dimensions match the data.
    pub fn is_well_formed(&self) -> (r: bool)
        ensures
            r == self.wf(),
    {
        if self.width < 0 || self.height < 0 {
            return false;
        }
        proof {
            crate::geometry::lemma_product_fits(self.width as int, self.height as int);
        }
        self.data.len() as u128 == self.width as u128 * self.height as u128
    }
}

impl Overlay {
    /// Whether labels refer to stored bitmaps, each point at most once, and all bitmaps are well formed.
    pub fn is_well_formed(&self) -> (r: bool)
        ensures
            r == self.wf(),
    {
        let n = self.overlay_indices.len();
        let mut i: usize = 0;
        while i < n
            invariant
                n == self.overlay_indices@.len(),
                i <= n,
                forall|a: int| 0 <= a < i ==> #[trigger] self.overlay_indices@[a].1 < self.overlay_bitmaps@.len(),
                forall|a: int, b: int|
                    0 <= a < b < n && a < i ==> #[trigger] self.overlay_indices@[a].0
                        != #[trigger] self.overlay_indices@[b].0,
            decreases n - i,
        {
            if self.overlay_indices[i].1 >= self.overlay_bitmaps.len() {
                return false;
            }
            let mut j: usize = i + 1;
            while j < n
                invariant
                    n == self.overlay_indices@.len(),
                    i < n,
                    i + 1 <= j <= n,
                    forall|b: int| i < b < j ==> self.overlay_indices@[i as int].0 != #[trigger] self.overlay_indices@[b].0,
                decreases n - j,
            {
                if self.overlay_indices[i].0 == self.overlay_indices[j].0 {
                    return false;
                }
                j = j + 1;
            }
            i = i + 1;
        }
        let mut k: usize = 0;
        while k < self.overlay_bitmaps.len()
            invariant
                k <= self.overlay_bitmaps@.len(),
                forall|a: int| 0 <= a < k ==> #[trigger] self.overlay_bitmaps@[a].wf(),
            decreases self.overlay_bitmaps@.len() - k,
        {
            if !self.overlay_bitmaps[k].is_well_formed() {
                return false;
            }
            k = k + 1;
        }
        let mut t: usize = 0;
        while t < self.title_bitmaps.len()
            invariant
                t <= self.title_bitmaps@.len(),
                forall|a: int|
                    0 <= a < t && #[trigger] self.title_bitmaps@[a] is Some ==> self.title_bitmaps@[a]->Some_0.wf(),
            decreases self.title_bitmaps@.len() - t,
        {
            if let Some(b) = &self.title_bitmaps[t] {
                if !b.is_well_formed() {
                    return false;
                }
            }
            t = t + 1;
        }
        true
    }
}

impl Data {
    /// Whether the data set is well formed; see `wf`.
    pub fn is_well_formed(&self) -> (r: bool)
        ensures
            r == self.wf(),
    {
        if self.width == 0 || self.height == 0 {
            return false;
        }
        proof {
            crate::geometry::lemma_product_fits(self.width as int, self.height as int);
        }
        if self.data.len() as u128 != self.width as u128 * self.height as u128 {
            return false;
        }
        let right = self.first_point_coordinate.x as i128 + self.width as i128;
        let bottom = self.first_point_coordinate.y as i128 + self.height as i128;
        if right > i32::MAX as i128 || bottom > i32::MAX as i128 {
            return false;
        }
        self.overlay.is_well_formed()
    }
}

} // verus!
