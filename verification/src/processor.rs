//! The pixel-production interface and its structural combinators.
//!
//! A pixel source declares an addressable rectangle and answers
//! per-coordinate queries with a present value, an absence (no such
//! coordinate here), or a typed failure propagated from below. Combinators
//! wrap one or two sources and re-expose the same interface, so pipelines
//! compose to arbitrary depth without copying data.
//!
//! Every implementation fixes a relation `lookup_rel` saying which answers
//! a query may produce; `process_pixel` is proved to answer within that
//! relation, and each combinator's relation is built from the relations of
//! what it wraps.

use vstd::prelude::*;

verus! {

use crate::pixel::Gray;
use crate::pixel::Pixel;

/// A bounded two-dimensional pixel source.
pub trait ImageProcessor: Sized {
    /// The pixel type this source produces.
    type Pixel: Pixel;

    /// The failure type this source propagates.
    type Error;

    /// The source is in a state its contracts assume; every combinator
    /// preserves it.
    spec fn wf(&self) -> bool;

    /// The declared width.
    spec fn spec_width(&self) -> int;

    /// The declared height.
    spec fn spec_height(&self) -> int;

    /// The answers a query at `(x, y)` may produce.
    spec fn lookup_rel(&self, x: int, y: int, r: Result<Option<Self::Pixel>, Self::Error>) -> bool;

    /// The declared addressable rectangle; stable for the source's
    /// lifetime.
    fn dimensions(&self) -> (r: (usize, usize))
        requires
            self.wf(),
        ensures
            r.0 == self.spec_width(),
            r.1 == self.spec_height(),
    ;

    /// Produces the pixel at `(x, y)`: a value, an absence, or a failure.
    fn process_pixel(&self, x: usize, y: usize) -> (r: Result<
        Option<Self::Pixel>,
        Self::Error,
    >)
        requires
            self.wf(),
        ensures
            self.lookup_rel(x as int, y as int, r),
    ;

    /// Wraps this source so that present values pass through `f`.
    fn map<Pix2: Pixel, F: Fn(Self::Pixel) -> Pix2>(self, f: F) -> (r: Mapped<Self, F>)
        ensures
            r.processor == self,
            r.f == f,
    {
        Mapped { processor: self, f }
    }

    /// Wraps this source so that present values failing `predicate` become
    /// absences.
    fn filter<F: Fn(&Self::Pixel) -> bool>(self, predicate: F) -> (r: Filter<Self, F>)
        ensures
            r.processor == self,
            r.predicate == predicate,
    {
        Filter { processor: self, predicate }
    }

    /// Lays `other` to the right of this source.
    fn chain<P2>(self, other: P2) -> (r: Chain<Self, P2>)
        ensures
            r.first == self,
            r.second == other,
    {
        Chain { first: self, second: other }
    }
}

/// A source that applies a total function to every present pixel; absence
/// and failure pass through unchanged, and the dimensions are those of the
/// wrapped source.
pub struct Mapped<P, F> {
    pub processor: P,
    pub f: F,
}

impl<P: ImageProcessor, F: Fn(P::Pixel) -> Pix2, Pix2: Pixel> ImageProcessor for Mapped<P, F> {
    type Pixel = Pix2;

    type Error = P::Error;

    open spec fn wf(&self) -> bool {
        &&& self.processor.wf()
        &&& forall|p: P::Pixel| call_requires(self.f, (p,))
    }

    open spec fn spec_width(&self) -> int {
        self.processor.spec_width()
    }

    open spec fn spec_height(&self) -> int {
        self.processor.spec_height()
    }

    open spec fn lookup_rel(&self, x: int, y: int, r: Result<Option<Pix2>, P::Error>) -> bool {
        match r {
            Ok(Some(q)) => exists|p: P::Pixel|
                #[trigger] self.processor.lookup_rel(x, y, Ok(Some(p))) && call_ensures(
                    self.f,
                    (p,),
                    q,
                ),
            Ok(None) => self.processor.lookup_rel(x, y, Ok(None)),
            Err(e) => self.processor.lookup_rel(x, y, Err(e)),
        }
    }

    fn dimensions(&self) -> (r: (usize, usize)) {
        self.processor.dimensions()
    }

    fn process_pixel(&self, x: usize, y: usize) -> (r: Result<Option<Pix2>, P::Error>) {
        match self.processor.process_pixel(x, y) {
            Ok(Some(p)) => {
                let q = (self.f)(p);
                proof {
                    assert(self.processor.lookup_rel(
                        x as int,
                        y as int,
                        Ok::<Option<P::Pixel>, P::Error>(Some(p)),
                    ) && call_ensures(self.f, (p,), q));
                }
                Ok(Some(q))
            },
            Ok(None) => Ok(None),
            Err(e) => Err(e),
        }
    }
}

/// A source that turns present pixels failing a predicate into absences;
/// failure passes through, and the dimensions are those of the wrapped
/// source.
pub struct Filter<P, F> {
    pub processor: P,
    pub predicate: F,
}

impl<P: ImageProcessor, F: Fn(&P::Pixel) -> bool> ImageProcessor for Filter<P, F> {
    type Pixel = P::Pixel;

    type Error = P::Error;

    open spec fn wf(&self) -> bool {
        &&& self.processor.wf()
        &&& forall|p: P::Pixel| call_requires(self.predicate, (&p,))
    }

    open spec fn spec_width(&self) -> int {
        self.processor.spec_width()
    }

    open spec fn spec_height(&self) -> int {
        self.processor.spec_height()
    }

    open spec fn lookup_rel(&self, x: int, y: int, r: Result<Option<P::Pixel>, P::Error>) -> bool {
        match r {
            Ok(Some(p)) => self.processor.lookup_rel(x, y, Ok(Some(p))) && call_ensures(
                self.predicate,
                (&p,),
                true,
            ),
            Ok(None) => self.processor.lookup_rel(x, y, Ok(None)) || (exists|p: P::Pixel|
                self.processor.lookup_rel(x, y, Ok(Some(p))) && #[trigger] call_ensures(
                    self.predicate,
                    (&p,),
                    false,
                )),
            Err(e) => self.processor.lookup_rel(x, y, Err(e)),
        }
    }

    fn dimensions(&self) -> (r: (usize, usize)) {
        self.processor.dimensions()
    }

    fn process_pixel(&self, x: usize, y: usize) -> (r: Result<Option<P::Pixel>, P::Error>) {
        match self.processor.process_pixel(x, y) {
            Ok(Some(p)) => {
                if (self.predicate)(&p) {
                    Ok(Some(p))
                } else {
                    proof {
                        assert(self.processor.lookup_rel(x as int, y as int, Ok(Some(p)))
                            && call_ensures(self.predicate, (&p,), false));
                    }
                    Ok(None)
                }
            },
            Ok(None) => Ok(None),
            Err(e) => Err(e),
        }
    }
}

/// Horizontal concatenation of two sources. A query left of the first
/// source's width goes to the first source; anything else goes to the
/// second, shifted left by that width. The combined width is the sum of
/// the two widths and the combined height is the larger of the two
/// heights; a query in the gap below a shorter child yields that child's
/// own absence.
pub struct Chain<P1, P2> {
    pub first: P1,
    pub second: P2,
}

impl<
    P1: ImageProcessor,
    P2: ImageProcessor<Pixel = P1::Pixel, Error = P1::Error>,
> ImageProcessor for Chain<P1, P2> {
    type Pixel = P1::Pixel;

    type Error = P1::Error;

    open spec fn wf(&self) -> bool {
        &&& self.first.wf()
        &&& self.second.wf()
        &&& self.first.spec_width() + self.second.spec_width() <= usize::MAX
    }

    open spec fn spec_width(&self) -> int {
        self.first.spec_width() + self.second.spec_width()
    }

    open spec fn spec_height(&self) -> int {
        if self.first.spec_height() >= self.second.spec_height() {
            self.first.spec_height()
        } else {
            self.second.spec_height()
        }
    }

    open spec fn lookup_rel(&self, x: int, y: int, r: Result<Option<P1::Pixel>, P1::Error>) -> bool {
        if x < self.first.spec_width() {
            self.first.lookup_rel(x, y, r)
        } else {
            self.second.lookup_rel(x - self.first.spec_width(), y, r)
        }
    }

    fn dimensions(&self) -> (r: (usize, usize)) {
        let (w1, h1) = self.first.dimensions();
        let (w2, h2) = self.second.dimensions();
        let h = if h1 >= h2 {
            h1
        } else {
            h2
        };
        (w1 + w2, h)
    }

    fn process_pixel(&self, x: usize, y: usize) -> (r: Result<Option<P1::Pixel>, P1::Error>) {
        let (w1, _h1) = self.first.dimensions();
        if x < w1 {
            self.first.process_pixel(x, y)
        } else {
            self.second.process_pixel(x - w1, y)
        }
    }
}

/// The value a bounded `x + y` source holds at `(x, y)`.
pub open spec fn sum_value(x: int, y: int) -> int {
    (x + y) % 256
}

/// A simple source whose pixel at `(x, y)` is the low byte of `x + y`.
pub struct TestProcessor {
    pub width: usize,
    pub height: usize,
}

impl ImageProcessor for TestProcessor {
    type Pixel = Gray<u8>;

    type Error = ();

    open spec fn wf(&self) -> bool {
        self.width + self.height <= usize::MAX
    }

    open spec fn spec_width(&self) -> int {
        self.width as int
    }

    open spec fn spec_height(&self) -> int {
        self.height as int
    }

    open spec fn lookup_rel(&self, x: int, y: int, r: Result<Option<Gray<u8>>, ()>) -> bool {
        if 0 <= x < self.width && 0 <= y < self.height {
            match r {
                Ok(Some(p)) => p.value == sum_value(x, y),
                _ => false,
            }
        } else {
            r == Ok::<Option<Gray<u8>>, ()>(None)
        }
    }

    fn dimensions(&self) -> (r: (usize, usize)) {
        (self.width, self.height)
    }

    fn process_pixel(&self, x: usize, y: usize) -> (r: Result<Option<Gray<u8>>, ()>) {
        if x < self.width && y < self.height {
            let v: usize = (x + y) % 256;
            Ok(Some(Gray { value: v as u8 }))
        } else {
            Ok(None)
        }
    }
}

/// The value a gradient source of the given dimensions holds at `(x, y)`:
/// `(x + y) * 255` scaled down by the sum of the dimensions.
pub open spec fn gradient_value(x: int, y: int, width: int, height: int) -> int {
    (x + y) * 255 / (width + height)
}

/// A source producing a diagonal gray gradient over its rectangle.
pub struct GradientProcessor {
    pub width: usize,
    pub height: usize,
}

impl ImageProcessor for GradientProcessor {
    type Pixel = Gray<u8>;

    type Error = ();

    open spec fn wf(&self) -> bool {
        0 < self.width + self.height && (self.width + self.height) * 255 <= usize::MAX
    }

    open spec fn spec_width(&self) -> int {
        self.width as int
    }

    open spec fn spec_height(&self) -> int {
        self.height as int
    }

    open spec fn lookup_rel(&self, x: int, y: int, r: Result<Option<Gray<u8>>, ()>) -> bool {
        if 0 <= x < self.width && 0 <= y < self.height {
            match r {
                Ok(Some(p)) => p.value == gradient_value(x, y, self.width as int, self.height as int),
                _ => false,
            }
        } else {
            r == Ok::<Option<Gray<u8>>, ()>(None)
        }
    }

    fn dimensions(&self) -> (r: (usize, usize)) {
        (self.width, self.height)
    }

    fn process_pixel(&self, x: usize, y: usize) -> (r: Result<Option<Gray<u8>>, ()>) {
        if x < self.width && y < self.height {
            let s: usize = self.width + self.height;
            proof {
                lemma_gradient_bounds(x as int, y as int, self.width as int, self.height as int);
            }
            let v: usize = (x + y) * 255 / s;
            Ok(Some(Gray { value: v as u8 }))
        } else {
            Ok(None)
        }
    }
}

/// The gradient value fits in a byte and its computation stays within
/// machine bounds.
proof fn lemma_gradient_bounds(x: int, y: int, w: int, h: int)
    requires
        0 <= x < w,
        0 <= y < h,
        0 < w + h,
        (w + h) * 255 <= usize::MAX,
    ensures
        (x + y) * 255 <= usize::MAX,
        0 <= gradient_value(x, y, w, h) < 256,
{
    let s = w + h;
    let u = (x + y) * 255;
    assert(u < s * 255) by (nonlinear_arith)
        requires
            u == (x + y) * 255,
            x + y < s,
            0 < s,
    ;
    assert(u >= 0) by (nonlinear_arith)
        requires
            u == (x + y) * 255,
            x + y >= 0,
    ;
    vstd::arithmetic::div_mod::lemma_fundamental_div_mod(u, s);
    vstd::arithmetic::div_mod::lemma_mod_bound(u, s);
    assert(s * (u / s) <= u);
    assert(u / s < 256) by (nonlinear_arith)
        requires
            s * (u / s) <= u,
            u < s * 255,
            0 < s,
    ;
    vstd::arithmetic::div_mod::lemma_div_is_ordered(0, u, s);
}

} // verus!
