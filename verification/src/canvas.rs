//! The framebuffer: a width x height x 3 array of fixed-point channel
//! values in `[0, 1]`.

use crate::fixed::{lemma_div_exact_bound, SCALE};
use vstd::arithmetic::div_mod::lemma_div_pos_is_pos;
use vstd::prelude::*;

verus! {

/// One channel quantized for an 8-bit image: clamped into `[0, 1]` and
/// rescaled to `[0, 255]`, rounding down.
pub open spec fn byte_of_channel(x: int) -> int {
    let c = if x < 0 {
        0
    } else if x > SCALE as int {
        SCALE as int
    } else {
        x
    };
    (c * 255) / (SCALE as int)
}

/// Quantize one framebuffer channel to a byte, exactly as `byte_of_channel`
/// states it.
pub fn channel_to_byte(x: i64) -> (r: u8)
    ensures
        r == byte_of_channel(x as int),
{
    let c: i64 = if x < 0 {
        0
    } else if x > SCALE {
        SCALE
    } else {
        x
    };
    proof {
        lemma_div_pos_is_pos(c as int * 255, SCALE as int);
        lemma_div_exact_bound(c as int * 255, 255, SCALE as int);
    }
    ((c * 255) / SCALE) as u8
}

/// Largest supported image side length.
pub const SIDE_MAX: u32 = 16384;

/// Why a canvas could not be built.
#[derive(Clone, Copy, Debug, PartialEq, Eq, Structural)]
pub enum CanvasBuildError {
    /// A side length below two (the sampler divides by `side - 1`) or above
    /// the supported maximum.
    InvalidDimensions,
}

/// Mathematical model of a canvas.
pub ghost struct CanvasV {
    pub width: int,
    pub height: int,
    pub aspect_ratio: int,
    pub buffer: Seq<int>,
}

impl CanvasV {
    /// Canvases the renderer accepts: sides in range, the aspect ratio
    /// derived from them, and a full buffer of channel values in `[0, 1]`.
    pub open spec fn wf(self) -> bool {
        &&& 2 <= self.width <= SIDE_MAX as int
        &&& 2 <= self.height <= SIDE_MAX as int
        &&& self.aspect_ratio == (self.width * (SCALE as int)) / self.height
        &&& self.buffer.len() == self.width * self.height * 3
        &&& forall|i: int|
            0 <= i < self.buffer.len() ==> 0 <= #[trigger] self.buffer[i] <= SCALE as int
    }
}

/// The framebuffer with its dimensions; `buffer[(j * width + i) * 3 ..]`
/// holds the three channels of the pixel in column `i` of row `j`.
#[derive(Debug)]
pub struct Canvas {
    pub width: u32,
    pub height: u32,
    pub aspect_ratio: i64,
    pub buffer: Vec<i64>,
}

impl View for Canvas {
    type V = CanvasV;

    open spec fn view(&self) -> CanvasV {
        CanvasV {
            width: self.width as int,
            height: self.height as int,
            aspect_ratio: self.aspect_ratio as int,
            buffer: Seq::new(self.buffer@.len(), |i: int| self.buffer@[i] as int),
        }
    }
}

/// Configuration for a canvas; unset sides default to 960 x 540.
#[derive(Clone, Copy, Debug)]
pub struct CanvasBuilder {
    pub width: Option<u32>,
    pub height: Option<u32>,
}

impl Default for CanvasBuilder {
    /// The empty configuration: both sides unset.
    fn default() -> (r: CanvasBuilder)
        ensures
            r.width is None && r.height is None,
    {
        CanvasBuilder { width: None, height: None }
    }
}

/// A side or its documented default.
pub open spec fn side_or(o: Option<u32>, dflt: int) -> int {
    match o {
        Some(v) => v as int,
        None => dflt,
    }
}

impl CanvasBuilder {
    pub fn width(self, value: u32) -> (r: CanvasBuilder)
        ensures
            r.width == Some(value) && r.height == self.height,
    {
        CanvasBuilder { width: Some(value), ..self }
    }

    pub fn height(self, value: u32) -> (r: CanvasBuilder)
        ensures
            r.height == Some(value) && r.width == self.width,
    {
        CanvasBuilder { height: Some(value), ..self }
    }

    /// Build the zeroed canvas, or reject out-of-range dimensions.
    pub fn build(&self) -> (r: Result<Canvas, CanvasBuildError>)
        ensures
            r is Ok <==> 2 <= side_or(self.width, 960) <= SIDE_MAX as int && 2 <= side_or(
                self.height,
                540,
            ) <= SIDE_MAX as int,
            r matches Ok(c) ==> c@.wf() && c@.width == side_or(self.width, 960) && c@.height
                == side_or(self.height, 540) && (forall|i: int|
                0 <= i < c@.buffer.len() ==> #[trigger] c@.buffer[i] == 0),
            r matches Err(e) ==> e == CanvasBuildError::InvalidDimensions,
    {
        let width = match self.width {
            Some(value) => value,
            None => 960,
        };
        let height = match self.height {
            Some(value) => value,
            None => 540,
        };
        if width < 2 || width > SIDE_MAX || height < 2 || height > SIDE_MAX {
            return Err(CanvasBuildError::InvalidDimensions);
        }
        let aspect_ratio = ((width as i64) * SCALE) / (height as i64);
        proof {
            assert(0 <= (width as int) * (height as int) * 3 <= 805306368) by (nonlinear_arith)
                requires
                    2 <= width as int <= 16384,
                    2 <= height as int <= 16384,
            ;
        }
        let n: usize = (width as usize) * (height as usize) * 3;
        let mut buffer: Vec<i64> = Vec::new();
        let mut i: usize = 0;
        while i < n
            invariant
                0 <= i <= n,
                buffer@.len() == i,
                forall|k: int| 0 <= k < i ==> #[trigger] buffer@[k] == 0,
            decreases n - i,
        {
            buffer.push(0);
            i = i + 1;
        }
        Ok(Canvas { width, height, aspect_ratio, buffer })
    }
}

} // verus!
