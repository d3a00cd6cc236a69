//! Batches of images on the host.

use vstd::prelude::*;

use crate::util::log::{refusal, Error, ErrorView};
use crate::util::matrix::zero_list;
use crate::util::precision::PrecisionType;

verus! {

/// The number of values in a batch of `n` images with `c` channels of `h` times `w` pixels.
pub open spec fn volume(n: int, c: int, h: int, w: int) -> int {
    n * c * h * w
}

/// The place of the pixel `(ni, ci, hi, wi)` in a batch with `c` channels of `h` times `w` pixels.
pub open spec fn pixel_index(c: int, h: int, w: int, ni: int, ci: int, hi: int, wi: int) -> int {
    ni * (c * h * w) + ci * (h * w) + hi * w + wi
}

/// The place of a pixel can be worked out without running past the largest address.
pub open spec fn index_fits(c: int, h: int, w: int, ni: int, ci: int, hi: int, wi: int) -> bool {
    &&& c * h <= usize::MAX
    &&& c * h * w <= usize::MAX
    &&& h * w <= usize::MAX
    &&& pixel_index(c, h, w, ni, ci, hi, wi) <= usize::MAX
}

/// A pixel lies inside its batch, and its place can be worked out there.
proof fn lemma_pixel_in_range(
    n: int,
    c: int,
    h: int,
    w: int,
    ni: int,
    ci: int,
    hi: int,
    wi: int,
)
    requires
        0 <= ni < n,
        0 <= ci < c,
        0 <= hi < h,
        0 <= wi < w,
    ensures
        0 <= c * h <= volume(n, c, h, w),
        0 <= c * h * w <= volume(n, c, h, w),
        0 <= h * w <= volume(n, c, h, w),
        0 <= ni * (c * h * w),
        0 <= ci * (h * w),
        0 <= hi * w,
        0 <= pixel_index(c, h, w, ni, ci, hi, wi) < volume(n, c, h, w),
{
    let plane = h * w;
    let image = c * h * w;
    assert(0 < plane && 0 < c * h && 0 <= hi * w && hi * w + w <= plane) by (nonlinear_arith)
        requires
            plane == h * w,
            0 <= hi < h,
            0 < w,
            0 < c,
    ;
    assert(image == c * plane) by (nonlinear_arith)
        requires
            image == c * h * w,
            plane == h * w,
    ;
    assert(c * h <= image) by (nonlinear_arith)
        requires
            image == c * h * w,
            0 < c * h,
            0 < w,
    ;
    assert(plane <= image && 0 <= ci * plane && ci * plane + plane <= image)
        by (nonlinear_arith)
        requires
            image == c * plane,
            0 < plane,
            0 <= ci < c,
    ;
    assert(volume(n, c, h, w) == n * image) by (nonlinear_arith)
        requires
            image == c * h * w,
    ;
    assert(image <= n * image && 0 <= ni * image && ni * image + image <= n * image)
        by (nonlinear_arith)
        requires
            0 < image,
            0 <= ni < n,
    ;
}

/// The pixels of a batch lie inside it, and no two of them at the same place.
pub proof fn law_pixels_are_distinct(
    n: int,
    c: int,
    h: int,
    w: int,
    p: (int, int, int, int),
    q: (int, int, int, int),
)
    requires
        0 <= p.0 < n,
        0 <= p.1 < c,
        0 <= p.2 < h,
        0 <= p.3 < w,
        0 <= q.0 < n,
        0 <= q.1 < c,
        0 <= q.2 < h,
        0 <= q.3 < w,
    ensures
        0 <= pixel_index(c, h, w, p.0, p.1, p.2, p.3) < volume(n, c, h, w),
        pixel_index(c, h, w, p.0, p.1, p.2, p.3) == pixel_index(c, h, w, q.0, q.1, q.2, q.3) <==> p
            == q,
{
    lemma_pixel_in_range(n, c, h, w, p.0, p.1, p.2, p.3);
    let plane = h * w;
    let image = c * h * w;
    assert(image == c * plane) by (nonlinear_arith)
        requires
            image == c * h * w,
            plane == h * w,
    ;
    let a = p.2 * w + p.3;
    let b = q.2 * w + q.3;
    assert(0 <= a < plane && 0 <= b < plane && (a == b ==> p.2 == q.2)) by (nonlinear_arith)
        requires
            plane == h * w,
            a == p.2 * w + p.3,
            b == q.2 * w + q.3,
            0 <= p.2 < h,
            0 <= q.2 < h,
            0 <= p.3 < w,
            0 <= q.3 < w,
    ;
    let x = p.1 * plane + a;
    let y = q.1 * plane + b;
    assert(0 <= x < image && 0 <= y < image && (x == y ==> p.1 == q.1)) by (nonlinear_arith)
        requires
            image == c * plane,
            x == p.1 * plane + a,
            y == q.1 * plane + b,
            0 <= p.1 < c,
            0 <= q.1 < c,
            0 <= a < plane,
            0 <= b < plane,
    ;
    assert(p.0 * image + x == q.0 * image + y ==> p.0 == q.0) by (nonlinear_arith)
        requires
            0 <= x < image,
            0 <= y < image,
    ;
}

/// A 4D data container representing a collection (batch) of multichannel 2D signals,
/// structured in a contiguous `NCHW` memory layout.
///
/// # Layout
/// * `N` is the number of batches.
/// * `C` is the number of channels.
/// * `H` is the height of the image.
/// * `W` is the width of the image.
#[derive(Debug)]
pub struct ImageBatch<T: PrecisionType> {
    pub n: usize,
    pub c: usize,
    pub h: usize,
    pub w: usize,
    /// The values, image by image.
    pub v: Vec<T>,
}

/// Every pixel that a list of values reaches is one that `init` may give for its coordinates.
spec fn laid_out<T, F: FnMut(usize, usize, usize, usize) -> T>(
    n: usize,
    c: usize,
    h: usize,
    w: usize,
    init: F,
    v: Seq<T>,
) -> bool {
    forall|ni: usize, ci: usize, hi: usize, wi: usize|
        ni < n && ci < c && hi < h && wi < w && #[trigger] pixel_index(
            c as int,
            h as int,
            w as int,
            ni as int,
            ci as int,
            hi as int,
            wi as int,
        ) < v.len() ==> call_ensures(
            init,
            (ni, ci, hi, wi),
            v[pixel_index(
                c as int,
                h as int,
                w as int,
                ni as int,
                ci as int,
                hi as int,
                wi as int,
            )],
        )
}

/// `init` may be called on the coordinates of every pixel.
pub open spec fn covers<T, F: FnMut(usize, usize, usize, usize) -> T>(
    n: usize,
    c: usize,
    h: usize,
    w: usize,
    init: F,
) -> bool {
    forall|ni: usize, ci: usize, hi: usize, wi: usize|
        ni < n && ci < c && hi < h && wi < w ==> call_requires(init, (ni, ci, hi, wi))
}

/// Appends one row of pixels.
fn push_row<T: PrecisionType, F: FnMut(usize, usize, usize, usize) -> T>(
    v: &mut Vec<T>,
    n: usize,
    dims: (usize, usize, usize),
    mut init: F,
    at: (usize, usize, usize),
) -> (r: F)
    requires
        covers(n, dims.0, dims.1, dims.2, init),
        at.0 < n && at.1 < dims.0 && at.2 < dims.1,
        laid_out(n, dims.0, dims.1, dims.2, init, old(v)@),
        old(v)@.len() == pixel_index(
            dims.0 as int,
            dims.1 as int,
            dims.2 as int,
            at.0 as int,
            at.1 as int,
            at.2 as int,
            0,
        ),
    ensures
        r == init,
        laid_out(n, dims.0, dims.1, dims.2, init, final(v)@),
        final(v)@.len() == old(v)@.len() + dims.2,
{
    let ghost given = init;
    let mut wi: usize = 0;
    let ghost start = v@.len();
    while wi < dims.2
        invariant
            init == given,
            wi <= dims.2,
            covers(n, dims.0, dims.1, dims.2, given),
            at.0 < n && at.1 < dims.0 && at.2 < dims.1,
            laid_out(n, dims.0, dims.1, dims.2, given, v@),
            start == pixel_index(
                dims.0 as int,
                dims.1 as int,
                dims.2 as int,
                at.0 as int,
                at.1 as int,
                at.2 as int,
                0,
            ),
            v@.len() == start + wi,
        decreases dims.2 - wi,
    {
        let ghost before = v@;
        v.push(init(at.0, at.1, at.2, wi));
        assert forall|a: usize, b: usize, x: usize, y: usize|
            a < n && b < dims.0 && x < dims.1 && y < dims.2 && #[trigger] pixel_index(
                dims.0 as int,
                dims.1 as int,
                dims.2 as int,
                a as int,
                b as int,
                x as int,
                y as int,
            ) < v@.len() implies call_ensures(
            given,
            (a, b, x, y),
            v@[pixel_index(
                dims.0 as int,
                dims.1 as int,
                dims.2 as int,
                a as int,
                b as int,
                x as int,
                y as int,
            )],
        ) by {
            law_pixels_are_distinct(
                n as int,
                dims.0 as int,
                dims.1 as int,
                dims.2 as int,
                (a as int, b as int, x as int, y as int),
                (at.0 as int, at.1 as int, at.2 as int, wi as int),
            );
            let place = pixel_index(
                dims.0 as int,
                dims.1 as int,
                dims.2 as int,
                a as int,
                b as int,
                x as int,
                y as int,
            );
            if place < before.len() {
                assert(v@[place] == before[place]);
            }
        }
        wi += 1;
    }
    init
}

/// Appends one channel of an image.
fn push_plane<T: PrecisionType, F: FnMut(usize, usize, usize, usize) -> T>(
    v: &mut Vec<T>,
    n: usize,
    dims: (usize, usize, usize),
    mut init: F,
    at: (usize, usize),
) -> (r: F)
    requires
        covers(n, dims.0, dims.1, dims.2, init),
        at.0 < n && at.1 < dims.0,
        laid_out(n, dims.0, dims.1, dims.2, init, old(v)@),
        old(v)@.len() == pixel_index(
            dims.0 as int,
            dims.1 as int,
            dims.2 as int,
            at.0 as int,
            at.1 as int,
            0,
            0,
        ),
    ensures
        r == init,
        laid_out(n, dims.0, dims.1, dims.2, init, final(v)@),
        final(v)@.len() == old(v)@.len() + dims.1 * dims.2,
{
    let ghost given = init;
    let mut hi: usize = 0;
    let ghost start = v@.len();
    assert(start == at.0 * (dims.0 * dims.1 * dims.2) + at.1 * (dims.1 * dims.2));
    while hi < dims.1
        invariant
            init == given,
            hi <= dims.1,
            covers(n, dims.0, dims.1, dims.2, given),
            at.0 < n && at.1 < dims.0,
            laid_out(n, dims.0, dims.1, dims.2, given, v@),
            start == at.0 * (dims.0 * dims.1 * dims.2) + at.1 * (dims.1 * dims.2),
            v@.len() == start + hi * dims.2,
        decreases dims.1 - hi,
    {
        init = push_row(v, n, dims, init, (at.0, at.1, hi));
        assert(hi * dims.2 + dims.2 == (hi + 1) * dims.2) by (nonlinear_arith);
        hi += 1;
    }
    init
}

/// Appends one image.
fn push_image<T: PrecisionType, F: FnMut(usize, usize, usize, usize) -> T>(
    v: &mut Vec<T>,
    n: usize,
    dims: (usize, usize, usize),
    mut init: F,
    ni: usize,
) -> (r: F)
    requires
        covers(n, dims.0, dims.1, dims.2, init),
        ni < n,
        laid_out(n, dims.0, dims.1, dims.2, init, old(v)@),
        old(v)@.len() == ni * (dims.0 * dims.1 * dims.2),
    ensures
        r == init,
        laid_out(n, dims.0, dims.1, dims.2, init, final(v)@),
        final(v)@.len() == (ni + 1) * (dims.0 * dims.1 * dims.2),
{
    let ghost given = init;
    let mut ci: usize = 0;
    let ghost start = v@.len();
    let ghost plane = dims.1 * dims.2;
    while ci < dims.0
        invariant
            init == given,
            ci <= dims.0,
            ni < n,
            covers(n, dims.0, dims.1, dims.2, given),
            laid_out(n, dims.0, dims.1, dims.2, given, v@),
            plane == dims.1 * dims.2,
            start == ni * (dims.0 * dims.1 * dims.2),
            v@.len() == start + ci * plane,
        decreases dims.0 - ci,
    {
        init = push_plane(v, n, dims, init, (ni, ci));
        assert(ci * plane + plane == (ci + 1) * plane) by (nonlinear_arith);
        ci += 1;
    }
    assert(ni * (dims.0 * dims.1 * dims.2) + dims.0 * plane == (ni + 1) * (dims.0 * dims.1
        * dims.2)) by (nonlinear_arith)
        requires
            plane == dims.1 * dims.2,
    ;
    init
}

impl<T: PrecisionType> ImageBatch<T> {
    /// There is one value for each pixel, and the number of pixels can be worked out from the left.
    pub open spec fn wf(&self) -> bool {
        &&& self.v@.len() == volume(self.n as int, self.c as int, self.h as int, self.w as int)
        &&& self.n * self.c <= usize::MAX
        &&& self.n * self.c * self.h <= usize::MAX
        &&& self.v@.len() <= usize::MAX
    }

    /// The coordinates name a pixel of the batch.
    pub open spec fn holds(&self, n: int, c: int, h: int, w: int) -> bool {
        0 <= n < self.n && 0 <= c < self.c && 0 <= h < self.h && 0 <= w < self.w
    }

    /// The place of the pixel `(n, c, h, w)`.
    pub open spec fn place(&self, n: int, c: int, h: int, w: int) -> int {
        pixel_index(self.c as int, self.h as int, self.w as int, n, c, h, w)
    }

    /// The value of a pixel.
    pub open spec fn pixel(&self, n: int, c: int, h: int, w: int) -> T {
        self.v@[self.place(n, c, h, w)]
    }

    /// The other batch has the same dimensions.
    pub open spec fn same_shape(&self, other: &Self) -> bool {
        self.n == other.n && self.c == other.c && self.h == other.h && self.w == other.w
    }

    /// Creates a new empty [`ImageBatch`] with dimensions set to `(0, 0, 0, 0)`.
    #[must_use]
    pub fn empty() -> (r: Self)
        ensures
            r.wf(),
            r.n == 0 && r.c == 0 && r.h == 0 && r.w == 0,
    {
        Self { n: 0, c: 0, h: 0, w: 0, v: Vec::new() }
    }

    /// Creates a new zero-initialised [`ImageBatch`] with the given dimensions.
    ///
    /// # Arguments
    /// * `n` - the number of batches.
    /// * `c` - the number of channels.
    /// * `h` - the height of the image.
    /// * `w` - the width of the image.
    #[must_use]
    pub fn new(n: usize, c: usize, h: usize, w: usize) -> (r: Self)
        requires
            n * c <= usize::MAX,
            n * c * h <= usize::MAX,
            volume(n as int, c as int, h as int, w as int) <= usize::MAX,
        ensures
            r.wf(),
            r.n == n && r.c == c && r.h == h && r.w == w,
            r.v@ == Seq::new(
                volume(n as int, c as int, h as int, w as int) as nat,
                |i: int| T::of_pattern(0),
            ),
    {
        assert(0 <= n * c && 0 <= n * c * h && 0 <= n * c * h * w) by (nonlinear_arith);
        Self { n, c, h, w, v: zero_list(n * c * h * w) }
    }

    /// Creates a new [`ImageBatch`] where each element is initialised via a closure.
    ///
    /// The closure receives coordinates in the exact execution order: `(n, c, h, w)`.
    ///
    /// # Arguments
    /// * `init` - A closure mapping `(n, c, h, w)` to an initial value `T`.
    pub fn new_init<F: FnMut(usize, usize, usize, usize) -> T>(
        n: usize,
        c: usize,
        h: usize,
        w: usize,
        mut init: F,
    ) -> (r: Self)
        requires
            n * c <= usize::MAX,
            n * c * h <= usize::MAX,
            volume(n as int, c as int, h as int, w as int) <= usize::MAX,
            covers(n, c, h, w, init),
        ensures
            r.wf(),
            r.n == n && r.c == c && r.h == h && r.w == w,
            forall|ni: usize, ci: usize, hi: usize, wi: usize|
                ni < n && ci < c && hi < h && wi < w ==> call_ensures(
                    init,
                    (ni, ci, hi, wi),
                    #[trigger] r.pixel(ni as int, ci as int, hi as int, wi as int),
                ),
    {
        let ghost given = init;
        assert(0 <= n * c && 0 <= n * c * h && 0 <= n * c * h * w) by (nonlinear_arith);
        let total_size: usize = n * c * h * w;
        let mut v: Vec<T> = Vec::with_capacity(total_size);
        let mut ni: usize = 0;
        assert(laid_out(n, c, h, w, given, v@)) by {
            assert forall|a: usize, b: usize, x: usize, y: usize|
                a < n && b < c && x < h && y < w implies 0 <= #[trigger] pixel_index(
                c as int,
                h as int,
                w as int,
                a as int,
                b as int,
                x as int,
                y as int,
            ) by {
                lemma_pixel_in_range(
                    n as int,
                    c as int,
                    h as int,
                    w as int,
                    a as int,
                    b as int,
                    x as int,
                    y as int,
                );
            }
        }
        while ni < n
            invariant
                init == given,
                ni <= n,
                covers(n, c, h, w, given),
                laid_out(n, c, h, w, given, v@),
                v@.len() == ni * (c * h * w),
            decreases n - ni,
        {
            init = push_image(&mut v, n, (c, h, w), init, ni);
            ni += 1;
        }
        assert(n * (c * h * w) == n * c * h * w) by (nonlinear_arith);
        let batch = Self { n, c, h, w, v };
        assert forall|ni: usize, ci: usize, hi: usize, wi: usize|
            ni < n && ci < c && hi < h && wi < w implies call_ensures(
            given,
            (ni, ci, hi, wi),
            #[trigger] batch.pixel(ni as int, ci as int, hi as int, wi as int),
        ) by {
            lemma_pixel_in_range(
                n as int,
                c as int,
                h as int,
                w as int,
                ni as int,
                ci as int,
                hi as int,
                wi as int,
            );
        }
        batch
    }

    /// Computes the flat 1D index corresponding to the given 4D coordinates.
    #[must_use]
    pub fn idx(&self, n: usize, c: usize, h: usize, w: usize) -> (r: usize)
        requires
            index_fits(
                self.c as int,
                self.h as int,
                self.w as int,
                n as int,
                c as int,
                h as int,
                w as int,
            ),
        ensures
            r == self.place(n as int, c as int, h as int, w as int),
    {
        let ghost image = self.c * self.h * self.w;
        let ghost plane = self.h * self.w;
        assert(0 <= self.c * self.h && 0 <= self.c * self.h * self.w && 0 <= plane)
            by (nonlinear_arith)
            requires
                plane == self.h * self.w,
        ;
        assert(0 <= n * image && 0 <= c * plane && 0 <= h * self.w) by (nonlinear_arith)
            requires
                0 <= image,
                0 <= plane,
        ;
        n * (self.c * self.h * self.w) + c * (self.h * self.w) + h * self.w + w
    }

    /// Safely fetches an immutable reference to the element at index `idx`.
    ///
    /// Returns `None` if the index is out of bounds.
    #[must_use]
    pub fn get_v(&self, idx: usize) -> (r: Option<&T>)
        ensures
            r == if idx < self.v@.len() {
                Some(&self.v@[idx as int])
            } else {
                None
            },
    {
        if idx < self.v.len() {
            Some(&self.v[idx])
        } else {
            None
        }
    }

    /// Safely fetches an immutable reference to the element at `(n, c, h, w)`.
    ///
    /// Returns `None` if any coordinates are out of bounds.
    #[must_use]
    pub fn get(&self, n: usize, c: usize, h: usize, w: usize) -> (r: Option<&T>)
        requires
            self.wf(),
        ensures
            r == if self.holds(n as int, c as int, h as int, w as int) {
                Some(&self.pixel(n as int, c as int, h as int, w as int))
            } else {
                None
            },
    {
        if n < self.n && c < self.c && h < self.h && w < self.w {
            proof {
                lemma_pixel_in_range(
                    self.n as int,
                    self.c as int,
                    self.h as int,
                    self.w as int,
                    n as int,
                    c as int,
                    h as int,
                    w as int,
                );
            }
            let idx: usize = self.idx(n, c, h, w);
            Some(&self.v[idx])
        } else {
            None
        }
    }

    /// Safely fetches a mutable reference to the element at `(n, c, h, w)`.
    ///
    /// Returns `None` if any coordinates are out of bounds.
    pub fn get_mut(&mut self, n: usize, c: usize, h: usize, w: usize) -> (r: Option<&mut T>)
        requires
            old(self).wf(),
        ensures
            final(self).wf(),
            final(self).same_shape(old(self)),
            r is Some <==> old(self).holds(n as int, c as int, h as int, w as int),
            r matches Some(place) ==> {
                &&& *place == old(self).pixel(n as int, c as int, h as int, w as int)
                &&& final(self).v@ == old(self).v@.update(
                    old(self).place(n as int, c as int, h as int, w as int),
                    *final(place),
                )
            },
            r is None ==> final(self).v@ == old(self).v@,
    {
        if n < self.n && c < self.c && h < self.h && w < self.w {
            proof {
                lemma_pixel_in_range(
                    self.n as int,
                    self.c as int,
                    self.h as int,
                    self.w as int,
                    n as int,
                    c as int,
                    h as int,
                    w as int,
                );
            }
            let idx: usize = self.idx(n, c, h, w);
            Some(&mut self.v[idx])
        } else {
            None
        }
    }

    /// Sets the value at the coordinate `(n, c, h, w)`.
    ///
    /// # Errors
    /// This function will return an error if:
    /// * [`Error::IndexOutOfBounds`] - The coordinates are out of bounds.
    pub fn set(&mut self, n: usize, c: usize, h: usize, w: usize, val: T) -> (r: Result<(), Error>)
        requires
            old(self).wf(),
            old(self).holds(n as int, c as int, h as int, w as int) || index_fits(
                old(self).c as int,
                old(self).h as int,
                old(self).w as int,
                n as int,
                c as int,
                h as int,
                w as int,
            ),
        ensures
            final(self).wf(),
            final(self).same_shape(old(self)),
            refusal(r) == if old(self).holds(n as int, c as int, h as int, w as int) {
                None
            } else {
                Some(
                    ErrorView::IndexOutOfBounds {
                        idx: old(self).place(n as int, c as int, h as int, w as int) as usize,
                        max_idx: old(self).v@.len() as usize,
                        reason: "reading element from image batch"@,
                    },
                )
            },
            r is Ok ==> final(self).v@ == old(self).v@.update(
                old(self).place(n as int, c as int, h as int, w as int),
                val,
            ),
            r is Err ==> final(self).v@ == old(self).v@,
    {
        if n >= self.n || c >= self.c || h >= self.h || w >= self.w {
            let idx: usize = self.idx(n, c, h, w);
            assert(0 <= self.n * self.c && 0 <= self.n * self.c * self.h) by (nonlinear_arith);
            let max_idx: usize = self.n * self.c * self.h * self.w;
            return Err(
                Error::IndexOutOfBounds {
                    idx,
                    max_idx,
                    reason: "reading element from image batch",
                },
            );
        }
        proof {
            lemma_pixel_in_range(
                self.n as int,
                self.c as int,
                self.h as int,
                self.w as int,
                n as int,
                c as int,
                h as int,
                w as int,
            );
        }
        let idx: usize = self.idx(n, c, h, w);
        self.v.set(idx, val);
        Ok(())
    }

    /// Sets the value directly at the flat vector index `idx`.
    ///
    /// # Errors
    /// This function will return an error if:
    /// * [`Error::IndexOutOfBounds`] - The index is out of bounds.
    pub fn set_v(&mut self, idx: usize, val: T) -> (r: Result<(), Error>)
        requires
            old(self).wf(),
        ensures
            final(self).wf(),
            final(self).same_shape(old(self)),
            refusal(r) == if idx < old(self).v@.len() {
                None
            } else {
                Some(
                    ErrorView::IndexOutOfBounds {
                        idx,
                        max_idx: old(self).v@.len() as usize,
                        reason: "setting element in image batch"@,
                    },
                )
            },
            final(self).v@ == if idx < old(self).v@.len() {
                old(self).v@.update(idx as int, val)
            } else {
                old(self).v@
            },
    {
        assert(0 <= self.n * self.c && 0 <= self.n * self.c * self.h) by (nonlinear_arith);
        let max_idx: usize = self.n * self.c * self.h * self.w;
        if idx >= max_idx {
            return Err(
                Error::IndexOutOfBounds { idx, max_idx, reason: "setting element in image batch" },
            );
        }
        self.v.set(idx, val);
        Ok(())
    }

    /// The number of batches.
    pub fn get_n(&self) -> (r: usize)
        ensures
            r == self.n,
    {
        self.n
    }

    /// The number of channels.
    pub fn get_c(&self) -> (r: usize)
        ensures
            r == self.c,
    {
        self.c
    }

    /// The height of an image.
    pub fn get_h(&self) -> (r: usize)
        ensures
            r == self.h,
    {
        self.h
    }

    /// The width of an image.
    pub fn get_w(&self) -> (r: usize)
        ensures
            r == self.w,
    {
        self.w
    }

    /// The values, image by image.
    pub fn get_data(&self) -> (r: &Vec<T>)
        ensures
            *r == self.v,
    {
        &self.v
    }

    /// Returns `true` if the container holds zero elements.
    #[must_use]
    pub fn is_empty(&self) -> (r: bool)
        ensures
            r == (self.v@.len() == 0),
    {
        self.v.len() == 0
    }

    /// Returns `true` if the container holds one or more elements.
    #[must_use]
    pub fn is_not_empty(&self) -> (r: bool)
        ensures
            r == (self.v@.len() > 0),
    {
        !self.is_empty()
    }
}

/// A write to one pixel of a batch is what a read of that pixel gives back, and no other pixel
/// changes.
pub proof fn law_image_write_then_read<T: PrecisionType>(
    before: ImageBatch<T>,
    after: ImageBatch<T>,
    p: (int, int, int, int),
    val: T,
    q: (int, int, int, int),
)
    requires
        before.wf(),
        before.holds(p.0, p.1, p.2, p.3),
        before.holds(q.0, q.1, q.2, q.3),
        after.same_shape(&before),
        after.v@ == before.v@.update(before.place(p.0, p.1, p.2, p.3), val),
    ensures
        after.wf(),
        after.pixel(q.0, q.1, q.2, q.3) == if q == p {
            val
        } else {
            before.pixel(q.0, q.1, q.2, q.3)
        },
{
    law_pixels_are_distinct(
        before.n as int,
        before.c as int,
        before.h as int,
        before.w as int,
        p,
        q,
    );
    law_pixels_are_distinct(
        before.n as int,
        before.c as int,
        before.h as int,
        before.w as int,
        q,
        q,
    );
}

/// Pixels lie in order: those of a row next to each other, the rows of a plane one behind the other,
/// then the planes of the channels of an image, and last the images.
pub proof fn law_pixels_lie_in_order(
    c: int,
    h: int,
    w: int,
    ni: int,
    ci: int,
    hi: int,
    wi: int,
)
    ensures
        pixel_index(c, h, w, 0, 0, 0, 0) == 0,
        pixel_index(c, h, w, ni, ci, hi, wi + 1) == pixel_index(c, h, w, ni, ci, hi, wi) + 1,
        pixel_index(c, h, w, ni, ci, hi + 1, wi) == pixel_index(c, h, w, ni, ci, hi, wi) + w,
        pixel_index(c, h, w, ni, ci + 1, hi, wi) == pixel_index(c, h, w, ni, ci, hi, wi) + h * w,
        pixel_index(c, h, w, ni + 1, ci, hi, wi) == pixel_index(c, h, w, ni, ci, hi, wi) + c * (h
            * w),
{
    assert(0 * (c * h * w) + 0 * (h * w) + 0 * w == 0) by (nonlinear_arith);
    assert((hi + 1) * w == hi * w + w) by (nonlinear_arith);
    assert((ci + 1) * (h * w) == ci * (h * w) + h * w) by (nonlinear_arith);
    assert((ni + 1) * (c * h * w) == ni * (c * h * w) + c * (h * w)) by (nonlinear_arith);
}

} // verus!
