//! The coordinate mapper: which rectangle of the complex plane a viewport
//! shows, and where a point of the viewport lies in it.
//!
//! Coordinates of the complex plane are exact fractions. The host divides
//! them out when it needs a floating-point number.

use crate::grid::PixelPoint;
use crate::viewport::ViewportSize;
use vstd::prelude::*;

verus! {

/// The fraction `num / den`.
#[derive(Clone, Copy, Debug, PartialEq, Eq, Structural)]
pub struct Ratio {
    pub num: i128,
    pub den: i128,
}

/// A point or an extent of the complex plane.
#[derive(Clone, Copy, Debug, PartialEq, Eq, Structural)]
pub struct ComplexPoint {
    pub re: Ratio,
    pub im: Ratio,
}

/// The visible rectangle of the complex plane: `center` is mapped to the
/// centre of the viewport, and `extent` is the distance from there to its
/// right and upper edges.
#[derive(Clone, Copy, Debug, PartialEq, Eq, Structural)]
pub struct ZoomWindow {
    pub center: ComplexPoint,
    pub extent: ComplexPoint,
}

/// Whether the number can be held in 128 bits.
pub open spec fn fits_i128(n: int) -> bool {
    i128::MIN <= n <= i128::MAX
}

impl Ratio {
    /// A fraction has a positive denominator.
    pub open spec fn wf(self) -> bool {
        self.den > 0
    }

    /// Whether two fractions denote the same number.
    pub open spec fn same_value(self, other: Ratio) -> bool {
        self.num * other.den == other.num * self.den
    }

    /// The fraction `num / den`, if the denominator is positive.
    pub fn new(num: i128, den: i128) -> (ratio: Option<Ratio>)
        ensures
            ratio == if den > 0 {
                Some(Ratio { num, den })
            } else {
                None
            },
    {
        if den > 0 {
            Some(Ratio { num, den })
        } else {
            None
        }
    }
}

impl ComplexPoint {
    /// Both coordinates are fractions.
    pub open spec fn wf(self) -> bool {
        self.re.wf() && self.im.wf()
    }
}

/// Whether every product and the sum of [`spec_map_axis`] can be held in 128
/// bits.
pub open spec fn axis_fits(p: i64, half_size: u32, extent: Ratio, center: Ratio) -> bool {
    &&& fits_i128(p * extent.num)
    &&& fits_i128(p * extent.num * center.den)
    &&& fits_i128(half_size * extent.den)
    &&& fits_i128(center.num * (half_size * extent.den))
    &&& fits_i128(p * extent.num * center.den + center.num * (half_size * extent.den))
    &&& fits_i128(half_size * extent.den * center.den)
}

/// One coordinate of a mapped point: `(p / half_size) * extent + center`,
/// brought to one fraction without reducing it.
pub open spec fn spec_map_axis(p: i64, half_size: u32, extent: Ratio, center: Ratio) -> Ratio {
    Ratio {
        num: (p * extent.num * center.den + center.num * (half_size * extent.den)) as i128,
        den: (half_size * extent.den * center.den) as i128,
    }
}

/// The sum of two fractions, not reduced.
pub open spec fn ratio_sum(a: Ratio, b: Ratio) -> Ratio {
    Ratio { num: (a.num * b.den + b.num * a.den) as i128, den: (a.den * b.den) as i128 }
}

/// The fraction that [`spec_map_axis`] gives is well formed, and it is the
/// sum of the scaled coordinate `(p * extent) / half_size` and the centre.
/// It maps the centre of the viewport to the centre of the window, and the
/// edge of the viewport, which is `half_size` away, to the centre plus the
/// extent.
pub proof fn lemma_map_axis_value(p: i64, half_size: u32, extent: Ratio, center: Ratio)
    requires
        half_size > 0,
        extent.wf(),
        center.wf(),
        axis_fits(p, half_size, extent, center),
    ensures
        spec_map_axis(p, half_size, extent, center).wf(),
        spec_map_axis(p, half_size, extent, center) == ratio_sum(
            Ratio { num: (p * extent.num) as i128, den: (half_size * extent.den) as i128 },
            center,
        ),
        p == 0 ==> spec_map_axis(p, half_size, extent, center).same_value(center),
        p == half_size && fits_i128(extent.num * center.den + center.num * extent.den)
            && fits_i128(extent.den * center.den) ==> spec_map_axis(
            p,
            half_size,
            extent,
            center,
        ).same_value(ratio_sum(extent, center)),
{
    let span = half_size * extent.den;
    assert(span > 0) by (nonlinear_arith)
        requires
            span == half_size * extent.den,
            half_size > 0,
            extent.den > 0,
    ;
    assert(span * center.den > 0) by (nonlinear_arith)
        requires
            span > 0,
            center.den > 0,
    ;
    if p == 0 {
        assert(p * extent.num * center.den == 0) by (nonlinear_arith)
            requires
                p == 0,
        ;
        assert(center.num * span * center.den == center.num * (span * center.den))
            by (nonlinear_arith);
    }
    if p == half_size {
        let h = half_size as int;
        assert((h * extent.num * center.den + center.num * (h * extent.den)) * (extent.den
            * center.den) == (extent.num * center.den + center.num * extent.den) * (h
            * extent.den * center.den)) by (nonlinear_arith);
    }
}

/// The window of a viewport has the viewport's aspect ratio: its extents are
/// to each other as the width is to the height.
pub proof fn lemma_window_keeps_aspect_ratio(viewport: ViewportSize)
    requires
        ZoomWindow::spec_from_viewport(viewport) is Some,
    ensures
        ({
            let extent = ZoomWindow::spec_from_viewport(viewport).unwrap().extent;
            extent.re.num * extent.im.den * viewport.height == extent.im.num * extent.re.den
                * viewport.width
        }),
{
    let w = viewport.width as int;
    let h = viewport.height as int;
    if w > h {
        assert(3 * (2 * w) * h == (3 * h) * 2 * w) by (nonlinear_arith);
    } else {
        assert(w * 1 * h == 1 * h * w) by (nonlinear_arith);
    }
}

fn map_axis(p: i64, half_size: u32, extent: Ratio, center: Ratio) -> (mapped: Option<Ratio>)
    ensures
        mapped == if half_size > 0 && extent.wf() && center.wf() && axis_fits(
            p,
            half_size,
            extent,
            center,
        ) {
            Some(spec_map_axis(p, half_size, extent, center))
        } else {
            None
        },
{
    if half_size == 0 || extent.den <= 0 || center.den <= 0 {
        return None;
    }
    let scaled = match (p as i128).checked_mul(extent.num) {
        Some(v) => v,
        None => {
            return None;
        },
    };
    let left = match scaled.checked_mul(center.den) {
        Some(v) => v,
        None => {
            return None;
        },
    };
    let span = match (half_size as i128).checked_mul(extent.den) {
        Some(v) => v,
        None => {
            return None;
        },
    };
    let right = match center.num.checked_mul(span) {
        Some(v) => v,
        None => {
            return None;
        },
    };
    let num = match left.checked_add(right) {
        Some(v) => v,
        None => {
            return None;
        },
    };
    let den = match span.checked_mul(center.den) {
        Some(v) => v,
        None => {
            return None;
        },
    };
    Some(Ratio { num, den })
}

impl ZoomWindow {
    /// The centre and the extent are made of fractions.
    pub open spec fn wf(self) -> bool {
        self.center.wf() && self.extent.wf()
    }

    /// The window of a viewport. It keeps the aspect ratio: the wider
    /// dimension spans `3/2`, the other one in proportion; a viewport that is
    /// not wider than high spans `width / height` by `1`. The centre is
    /// `-1/2 + 0i`. A viewport of no width and no height has no window.
    pub open spec fn spec_from_viewport(viewport: ViewportSize) -> Option<ZoomWindow> {
        let w = viewport.width;
        let h = viewport.height;
        if w == 0 && h == 0 {
            None
        } else {
            Some(
                ZoomWindow {
                    center: ComplexPoint {
                        re: Ratio { num: -1i128, den: 2 },
                        im: Ratio { num: 0, den: 1 },
                    },
                    extent: if w > h {
                        ComplexPoint {
                            re: Ratio { num: 3, den: 2 },
                            im: Ratio { num: (3 * h) as i128, den: (2 * w) as i128 },
                        }
                    } else {
                        ComplexPoint {
                            re: Ratio { num: w as i128, den: h as i128 },
                            im: Ratio { num: 1, den: 1 },
                        }
                    },
                },
            )
        }
    }

    /// Whether the point can be mapped: the viewport has an area, the window
    /// is well formed, and the arithmetic stays within 128 bits.
    pub open spec fn maps(self, point: PixelPoint, viewport: ViewportSize) -> bool {
        &&& viewport.width > 0
        &&& viewport.height > 0
        &&& self.wf()
        &&& axis_fits(point.x, viewport.width, self.extent.re, self.center.re)
        &&& axis_fits(point.y, viewport.height, self.extent.im, self.center.im)
    }

    /// Where the point lies in the complex plane:
    /// `(point / half_size) * extent + center` along each axis. The point
    /// is counted in half pixels from the centre of the viewport, so the
    /// half size of the viewport in that unit is its size in pixels.
    pub open spec fn spec_to_complex(self, point: PixelPoint, viewport: ViewportSize)
        -> ComplexPoint {
        ComplexPoint {
            re: spec_map_axis(point.x, viewport.width, self.extent.re, self.center.re),
            im: spec_map_axis(point.y, viewport.height, self.extent.im, self.center.im),
        }
    }

    /// The window of a viewport, see [`ZoomWindow::spec_from_viewport`].
    pub fn from_viewport(viewport: ViewportSize) -> (zoom: Option<ZoomWindow>)
        ensures
            zoom == ZoomWindow::spec_from_viewport(viewport),
            zoom matches Some(z) ==> z.wf(),
    {
        let w = viewport.width;
        let h = viewport.height;
        if w == 0 && h == 0 {
            None
        } else {
            let extent = if w > h {
                ComplexPoint {
                    re: Ratio { num: 3, den: 2 },
                    im: Ratio { num: 3 * (h as i128), den: 2 * (w as i128) },
                }
            } else {
                ComplexPoint {
                    re: Ratio { num: w as i128, den: h as i128 },
                    im: Ratio { num: 1, den: 1 },
                }
            };
            Some(
                ZoomWindow {
                    center: ComplexPoint {
                        re: Ratio { num: -1, den: 2 },
                        im: Ratio { num: 0, den: 1 },
                    },
                    extent,
                },
            )
        }
    }

    /// Maps a point of the viewport into the complex plane, exactly. There is
    /// no result where the point cannot be mapped, see [`ZoomWindow::maps`].
    pub fn to_complex(&self, point: PixelPoint, viewport: ViewportSize) -> (mapped: Option<
        ComplexPoint,
    >)
        ensures
            mapped == if self.maps(point, viewport) {
                Some(self.spec_to_complex(point, viewport))
            } else {
                None
            },
            mapped matches Some(c) ==> c.wf(),
    {
        let re = match map_axis(point.x, viewport.width, self.extent.re, self.center.re) {
            Some(r) => r,
            None => {
                return None;
            },
        };
        let im = match map_axis(point.y, viewport.height, self.extent.im, self.center.im) {
            Some(r) => r,
            None => {
                return None;
            },
        };
        proof {
            lemma_map_axis_value(point.x, viewport.width, self.extent.re, self.center.re);
            lemma_map_axis_value(point.y, viewport.height, self.extent.im, self.center.im);
        }
        Some(ComplexPoint { re, im })
    }
}

} // verus!
