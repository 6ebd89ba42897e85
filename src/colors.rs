use vstd::prelude::*;

use crate::geometry::lemma_product_fits;

verus! {

/// An RGBA color with premultiplied alpha, one byte per channel.
#[derive(Clone, Copy, Debug, PartialEq, Eq, Structural)]
pub struct Color {
    /// Red
    pub r: u8,
    /// Green
    pub g: u8,
    /// Blue
    pub b: u8,
    /// Alpha
    pub a: u8,
}

/// `v + gray`, saturated at 255.
pub open spec fn saturated_sum(v: u8, gray: u8) -> u8 {
    if v + gray > 255 {
        255
    } else {
        (v + gray) as u8
    }
}

/// A channel scaled by one half and rounded half up.
pub open spec fn halved(v: u8) -> u8 {
    ((v + 1) / 2) as u8
}

/// The operations that drawing on a raster needs from a pixel type.
pub trait BitMapDrawable: Sized {
    spec fn gray_spec(gray: u8) -> Self;

    spec fn added_spec(&self, gray: u8) -> Self;

    spec fn opaque_spec(&self) -> Self;

    spec fn darkened_spec(&self) -> Self;

    /// A pixel of the given additive luminance.
    fn gray(gray: u8) -> (r: Self)
        ensures
            r == Self::gray_spec(gray),
    ;

    /// Adds `gray` to each color channel, saturating.
    fn saturating_add(&self, gray: u8) -> (r: Self)
        ensures
            r == self.added_spec(gray),
    ;

    /// The same color, fully opaque.
    fn remove_alpha(self) -> (r: Self)
        ensures
            r == self.opaque_spec(),
    ;

    /// The color blended half way towards black.
    fn darken(self) -> (r: Self)
        ensures
            r == self.darkened_spec(),
    ;
}

impl Color {
    /// An opaque color.
    pub fn from_rgb(r: u8, g: u8, b: u8) -> (c: Color)
        ensures
            c == (Color { r, g, b, a: 255 }),
    {
        Color { r, g, b, a: 255 }
    }
}

impl BitMapDrawable for Color {
    open spec fn gray_spec(gray: u8) -> Color {
        Color { r: gray, g: gray, b: gray, a: 0 }
    }

    open spec fn added_spec(&self, gray: u8) -> Color {
        Color {
            r: saturated_sum(self.r, gray),
            g: saturated_sum(self.g, gray),
            b: saturated_sum(self.b, gray),
            a: 255,
        }
    }

    open spec fn opaque_spec(&self) -> Color {
        Color { r: self.r, g: self.g, b: self.b, a: 255 }
    }

    open spec fn darkened_spec(&self) -> Color {
        Color { r: halved(self.r), g: halved(self.g), b: halved(self.b), a: halved(self.a) }
    }

    fn gray(gray: u8) -> (r: Color) {
        Color { r: gray, g: gray, b: gray, a: 0 }
    }

    fn saturating_add(&self, gray: u8) -> (r: Color) {
        Color {
            r: self.r.saturating_add(gray),
            g: self.g.saturating_add(gray),
            b: self.b.saturating_add(gray),
            a: 255,
        }
    }

    fn remove_alpha(self) -> (r: Color) {
        Color { r: self.r, g: self.g, b: self.b, a: 255 }
    }

    fn darken(self) -> (r: Color) {
        let r = ((self.r as u16 + 1) / 2) as u8;
        let g = ((self.g as u16 + 1) / 2) as u8;
        let b = ((self.b as u16 + 1) / 2) as u8;
        let a = ((self.a as u16 + 1) / 2) as u8;
        Color { r, g, b, a }
    }
}

/// What the colorbar shows at a position, in units of the gradient's stops.
#[derive(Clone, Copy, Debug, PartialEq, Eq, Structural)]
pub enum ColorbarValue {
    /// The gradient has no stops, so no value is defined.
    Undefined,
    /// The gradient has one stop: the middle of the value range.
    Middle,
    /// Stop `index` of the stops `0..=last`: `lower + index * (upper - lower) / last`.
    Step { index: usize, last: usize },
}

/// The bucket `floor(clamp(numerator / denominator, 0, 1) * n)`, capped at the last stop.
pub open spec fn step_index(n: int, numerator: int, denominator: int) -> int {
    let num = if numerator > denominator { denominator } else { numerator };
    let k = num * n / denominator;
    if k > n - 1 {
        n - 1
    } else {
        k
    }
}

/// Reading the colorbar at the position of stop `i`, `i / (n - 1)`, gives
/// back stop `i`; and the stop read never decreases as the position rises.
pub proof fn lemma_colorbar_round_trip(n: int, i: int, j: int)
    requires
        n >= 2,
        0 <= i <= j < n,
    ensures
        step_index(n, i, n - 1) == i,
        step_index(n, i, n - 1) <= step_index(n, j, n - 1),
{
    assert(i * n / (n - 1) == i + i / (n - 1)) by (nonlinear_arith)
        requires n >= 2, 0 <= i;
    if i < n - 1 {
        assert(i / (n - 1) == 0) by (nonlinear_arith)
            requires 0 <= i < n - 1;
    } else {
        assert(i / (n - 1) == 1) by (nonlinear_arith)
            requires i == n - 1, n >= 2;
    }
    assert(j * n / (n - 1) == j + j / (n - 1)) by (nonlinear_arith)
        requires n >= 2, 0 <= j;
    assert(j / (n - 1) >= 0) by (nonlinear_arith)
        requires n >= 2, 0 <= j;
}

/// An ordered sequence of colors.
pub struct Gradient<C>(pub Vec<C>);

/// The number of stops of each half of a gradient through a center color.
pub open spec fn half_steps_spec(steps: int) -> int {
    if steps % 2 == 0 {
        steps
    } else {
        (steps + 1) / 2
    }
}

impl<C: Copy> Gradient<C> {
    pub open spec fn stops(&self) -> Seq<C> {
        self.0@
    }

    /// The color of row `row` of a colorbar `height` rows high.
    pub fn element_at(&self, row: usize, height: usize) -> (r: C)
        requires
            row < height,
            self.stops().len() > 0,
        ensures
            r == self.stops()[row * self.stops().len() / height as int],
    {
        let n = self.0.len();
        proof {
            lemma_product_fits(row as int, n as int);
        }
        let index = ((row as u128) * (n as u128) / (height as u128)) as usize;
        proof {
            assert((row as int) * (n as int) / (height as int) < n) by (nonlinear_arith)
                requires row < height, n > 0;
        }
        self.0[index]
    }

    /// The stop that a colorbar position `numerator / denominator` (0 at the
    /// lower end, 1 at the upper end) shows.
    pub fn fetch_step(&self, numerator: usize, denominator: usize) -> (r: ColorbarValue)
        requires
            denominator > 0,
        ensures
            self.stops().len() == 0 ==> r == ColorbarValue::Undefined,
            self.stops().len() == 1 ==> r == ColorbarValue::Middle,
            self.stops().len() >= 2 ==> r == (ColorbarValue::Step {
                index: step_index(self.stops().len() as int, numerator as int, denominator as int)
                    as usize,
                last: (self.stops().len() - 1) as usize,
            }),
    {
        let n = self.0.len();
        if n == 0 {
            ColorbarValue::Undefined
        } else if n == 1 {
            ColorbarValue::Middle
        } else {
            let num = if numerator > denominator {
                denominator
            } else {
                numerator
            };
            proof {
                lemma_product_fits(num as int, n as int);
            }
            let k = (num as u128) * (n as u128) / (denominator as u128);
            proof {
                assert(k <= n) by (nonlinear_arith)
                    requires k as int == (num as int) * (n as int) / (denominator as int), num <= denominator, denominator > 0;
            }
            let index = if k > (n - 1) as u128 {
                n - 1
            } else {
                k as usize
            };
            ColorbarValue::Step { index, last: n - 1 }
        }
    }

    /// How many stops each of the two halves of a gradient through a center
    /// color of `steps` stops has, before the duplicated stops are dropped.
    pub fn half_steps(steps: usize) -> (r: usize)
        ensures
            r == half_steps_spec(steps as int),
    {
        if steps % 2 == 0 {
            steps
        } else {
            steps / 2 + 1
        }
    }

    /// Joins the halves `start..center` and `center..end` of a gradient of
    /// `steps` stops, each of `half_steps(steps)` stops, dropping the stops
    /// that the halves share. With fewer than four stops the control colors are
    /// taken directly.
    pub fn through_center(
        start: C,
        center: C,
        end: C,
        steps: usize,
        start_center: Vec<C>,
        center_end: Vec<C>,
    ) -> (r: Gradient<C>)
        requires
            steps >= 4 ==> start_center@.len() == half_steps_spec(steps as int),
            steps >= 4 ==> center_end@.len() == half_steps_spec(steps as int),
        ensures
            r.stops().len() == steps,
            steps == 1 ==> r.stops() == seq![center],
            steps == 2 ==> r.stops() == seq![start, end],
            steps == 3 ==> r.stops() == seq![start, center, end],
            steps >= 4 && steps % 2 == 0 ==> forall|i: int|
                0 <= i < steps / 2 ==> #[trigger] r.stops()[i] == start_center@[2 * i],
            steps >= 4 && steps % 2 == 0 ==> forall|i: int|
                steps / 2 <= i < steps ==> #[trigger] r.stops()[i] == center_end@[2 * (i - steps
                    / 2) + 1],
            steps >= 4 && steps % 2 == 1 ==> r.stops() == start_center@.drop_last()
                + center_end@,
    {
        if steps == 0 {
            Gradient(Vec::new())
        } else if steps == 1 {
            Gradient(vec![center])
        } else if steps == 2 {
            Gradient(vec![start, end])
        } else if steps == 3 {
            Gradient(vec![start, center, end])
        } else if steps % 2 == 0 {
            let half = steps / 2;
            let mut out: Vec<C> = Vec::new();
            let mut i: usize = 0;
            while i < half
                invariant
                    half == steps / 2,
                    start_center@.len() == steps,
                    i <= half,
                    out@.len() == i,
                    forall|j: int| 0 <= j < i ==> out@[j] == start_center@[2 * j],
                decreases half - i,
            {
                out.push(start_center[2 * i]);
                i = i + 1;
            }
            let mut i: usize = 0;
            while i < half
                invariant
                    half == steps / 2,
                    steps % 2 == 0,
                    center_end@.len() == steps,
                    i <= half,
                    out@.len() == half + i,
                    forall|j: int| 0 <= j < half ==> out@[j] == start_center@[2 * j],
                    forall|j: int| half <= j < half + i ==> #[trigger] out@[j] == center_end@[2 * (j - half) + 1],
                decreases half - i,
            {
                out.push(center_end[2 * i + 1]);
                i = i + 1;
            }
            Gradient(out)
        } else {
            let mut out = start_center;
            out.pop();
            let mut i: usize = 0;
            let ghost first = out@;
            while i < center_end.len()
                invariant
                    first.len() + center_end@.len() == steps,
                    i <= center_end@.len(),
                    out@ == first + center_end@.subrange(0, i as int),
                decreases center_end@.len() - i,
            {
                out.push(center_end[i]);
                i = i + 1;
                proof {
                    assert(center_end@.subrange(0, i as int) == center_end@.subrange(0, i - 1)
                        .push(center_end@[i - 1]));
                }
            }
            assert(center_end@.subrange(0, center_end@.len() as int) == center_end@);
            Gradient(out)
        }
    }
}

} // verus!
