//! `Canvas`: a fixed-size, row-major 2-D grid of colors with bounds-checked
//! access, default-initialized to black. An out-of-range access is reported
//! as a [`CanvasIndexError`] carrying the attempted coordinates and the
//! canvas dimensions.

use vstd::prelude::*;
use vstd::string::StringExecFns;

use crate::canvas::text::dec_rep;
use crate::canvas::text::decimal_string;
use crate::colors::Color;

pub mod ppm_canvas;
pub mod text;

verus! {

broadcast use crate::linalg::tuple::lemma_tuple_len;

/// Marker for the formats a canvas can be rendered to.
pub trait CanvasFormat {}

/// The plain, un-encoded canvas format.
#[derive(Debug)]
pub struct Plain;

impl CanvasFormat for Plain {}

/// The number of pixels of a `W` by `H` canvas.
pub(crate) fn dimension<const W: usize, const H: usize>() -> (r: usize)
    requires
        W * H <= usize::MAX,
    ensures
        r == W * H,
{
    W * H
}

/// The condition reported for a read or write outside the canvas: the
/// attempted coordinates together with the canvas dimensions.
#[derive(PartialEq, Eq, Structural, Debug, Clone, Copy)]
pub struct CanvasIndexError {
    pub curr_x: usize,
    pub curr_y: usize,
    pub canvas_width: usize,
    pub canvas_height: usize,
}

impl CanvasIndexError {
    /// Records an out-of-range access at `(curr_x, curr_y)` on a canvas of
    /// `canvas_width` by `canvas_height` pixels.
    pub fn new(curr_x: usize, curr_y: usize, canvas_width: usize, canvas_height: usize) -> (r:
        CanvasIndexError)
        ensures
            r == (CanvasIndexError { curr_x, curr_y, canvas_width, canvas_height }),
    {
        CanvasIndexError { curr_x, curr_y, canvas_width, canvas_height }
    }

    /// The condition's diagnostic text.
    pub open spec fn message_chars(self) -> Seq<char> {
        "Invalid index at "@ + dec_rep(self.curr_x as nat) + ", "@ + dec_rep(self.curr_y as nat)
            + "; The canvas size is "@ + dec_rep(self.canvas_width as nat) + " x "@ + dec_rep(
            self.canvas_height as nat,
        ) + "."@
    }

    /// Renders the diagnostic text of this condition.
    pub fn message(&self) -> (s: String)
        ensures
            s@ == self.message_chars(),
    {
        let mut s = String::new();
        s.append("Invalid index at ");
        let x = decimal_string(self.curr_x as u64);
        s.append(x.as_str());
        s.append(", ");
        let y = decimal_string(self.curr_y as u64);
        s.append(y.as_str());
        s.append("; The canvas size is ");
        let w = decimal_string(self.canvas_width as u64);
        s.append(w.as_str());
        s.append(" x ");
        let h = decimal_string(self.canvas_height as u64);
        s.append(h.as_str());
        s.append(".");
        proof {
            assert(s@ =~= self.message_chars());
        }
        s
    }
}

/// A canvas of `W` (width) by `H` (height) pixels in format `F`, stored in
/// row-major order. Its view is the row-major sequence of its pixels.
#[derive(Debug)]
pub struct Canvas<const W: usize, const H: usize, F: CanvasFormat> {
    pixels: Vec<Color>,
    _format: core::marker::PhantomData<F>,
}

/// A canvas in the plain format.
pub type RawCanvas<const W: usize, const H: usize> = Canvas<W, H, Plain>;

impl<const W: usize, const H: usize, F: CanvasFormat> View for Canvas<W, H, F> {
    type V = Seq<Color>;

    closed spec fn view(&self) -> Seq<Color> {
        self.pixels@
    }
}

impl<const W: usize, const H: usize, F: CanvasFormat> Canvas<W, H, F> {
    /// The canvas holds exactly its `W * H` pixels.
    pub open spec fn wf(&self) -> bool {
        self@.len() == W * H
    }

    /// Returns the width of this canvas.
    pub fn width(&self) -> (r: usize)
        ensures
            r == W,
    {
        W
    }

    /// Returns the height of this canvas.
    pub fn height(&self) -> (r: usize)
        ensures
            r == H,
    {
        H
    }

    /// Validates the coordinates `(x, y)`: inside the canvas they name the
    /// row-major pixel index, outside they are reported with the canvas
    /// dimensions.
    fn validate_xy(&self, x: usize, y: usize) -> (r: Result<usize, CanvasIndexError>)
        requires
            self.wf(),
        ensures
            r is Ok <==> (x < W && y < H),
            r matches Ok(idx) ==> idx == y * W + x < W * H,
            r matches Err(e) ==> e == (CanvasIndexError {
                curr_x: x,
                curr_y: y,
                canvas_width: W,
                canvas_height: H,
            }),
    {
        if y < H && x < W {
            let n = self.pixels.len();
            proof {
                assert(n == W * H);
                assert(y * W + x < W * H) by (nonlinear_arith)
                    requires
                        x < W,
                        y < H,
                ;
            }
            Ok(y * W + x)
        } else {
            Err(CanvasIndexError::new(x, y, W, H))
        }
    }

    /// Returns the pixel of the canvas at `(x, y)`, or the out-of-range
    /// condition exactly when `(x, y)` lies outside the canvas.
    pub fn pixel_at(&self, x: usize, y: usize) -> (r: Result<&Color, CanvasIndexError>)
        requires
            self.wf(),
        ensures
            r is Ok <==> (x < W && y < H),
            r matches Ok(c) ==> *c == self@[y * W + x],
            r matches Err(e) ==> e == (CanvasIndexError {
                curr_x: x,
                curr_y: y,
                canvas_width: W,
                canvas_height: H,
            }),
    {
        match self.validate_xy(x, y) {
            Ok(idx) => Ok(&self.pixels[idx]),
            Err(e) => Err(e),
        }
    }

    /// Writes `color` to the canvas at `(x, y)`; outside the canvas it
    /// reports the out-of-range condition and changes nothing.
    pub fn write_pixel(&mut self, x: usize, y: usize, color: Color) -> (r: Result<
        (),
        CanvasIndexError,
    >)
        requires
            old(self).wf(),
        ensures
            final(self).wf(),
            r is Ok <==> (x < W && y < H),
            r is Ok ==> final(self)@ == old(self)@.update((y * W + x) as int, color),
            r matches Err(e) ==> e == (CanvasIndexError {
                curr_x: x,
                curr_y: y,
                canvas_width: W,
                canvas_height: H,
            }) && final(self)@ == old(self)@,
    {
        match self.validate_xy(x, y) {
            Ok(idx) => {
                self.pixels[idx] = color;
                Ok(())
            },
            Err(e) => Err(e),
        }
    }

    /// Read-only access to the full pixel buffer in row-major order.
    pub fn pixels(&self) -> (r: &[Color])
        ensures
            r@ == self@,
    {
        self.pixels.as_slice()
    }
}

/// A canvas with every pixel the default (black) color. When the pixel
/// count `W * H` does not fit in `usize` no buffer can exist; the result
/// is well-formed exactly when it does fit.
impl<const W: usize, const H: usize, F: CanvasFormat> core::default::Default for Canvas<W, H, F> {
    fn default() -> (r: Canvas<W, H, F>)
        ensures
            W * H <= usize::MAX ==> {
                &&& r.wf()
                &&& forall|k: int| 0 <= k < W * H ==> (#[trigger] r@[k])@ == seq![0i64, 0i64, 0i64]
            },
    {
        if W.checked_mul(H).is_none() {
            return Canvas { pixels: Vec::new(), _format: core::marker::PhantomData };
        }
        let n = dimension::<W, H>();
        let mut pixels: Vec<Color> = Vec::new();
        let mut i: usize = 0;
        while i < n
            invariant
                i <= n,
                pixels@.len() == i,
                forall|k: int| 0 <= k < i ==> (#[trigger] pixels@[k])@ == seq![0i64, 0i64, 0i64],
            decreases n - i,
        {
            pixels.push(Color::default());
            i = i + 1;
        }
        Canvas { pixels, _format: core::marker::PhantomData }
    }
}

} // verus!
