//! The host-side RGBA raster. Four 8-bit channels per pixel, row-major,
//! with explicit width and height. Decoding a file into this form and
//! encoding it back out belong to external collaborators; the library
//! only ever sees the plain bytes.

use vstd::prelude::*;
use crate::errors::BlurError;

verus! {

pub struct ImageBuffer {
    pub width: u32,
    pub height: u32,
    pub data: Vec<u8>,
}

impl ImageBuffer {
    pub open spec fn spec_width(&self) -> int {
        self.width as int
    }

    pub open spec fn spec_height(&self) -> int {
        self.height as int
    }

    pub open spec fn spec_data(&self) -> Seq<u8> {
        self.data@
    }

    /// The raster holds exactly four bytes for every pixel of a
    /// `width x height` grid.
    pub open spec fn wf(&self) -> bool {
        self.data@.len() == 4 * self.spec_width() * self.spec_height()
    }

    /// Channel `ch` (0 = R, 1 = G, 2 = B, 3 = A) of the pixel at `(x, y)`.
    pub open spec fn spec_channel(&self, x: int, y: int, ch: int) -> int {
        self.data@[4 * (y * self.spec_width() + x) + ch] as int
    }

    pub fn width(&self) -> (r: u32)
        ensures
            r == self.spec_width(),
    {
        self.width
    }

    pub fn height(&self) -> (r: u32)
        ensures
            r == self.spec_height(),
    {
        self.height
    }

    /// Wrap a decoded RGBA byte vector. Succeeds exactly when the byte
    /// count matches the declared dimensions.
    pub fn from_raw(width: u32, height: u32, data: Vec<u8>) -> (r: Result<ImageBuffer, BlurError>)
        ensures
            (data@.len() == 4 * width * height) <==> r is Ok,
            r matches Ok(img) ==> {
                &&& img.wf()
                &&& img.spec_width() == width
                &&& img.spec_height() == height
                &&& img.spec_data() == data@
            },
            r matches Err(e) ==> e == BlurError::InvalidParameter,
    {
        let dl: usize = data.len();
        proof {
            assert((width as int) * (height as int) <= 0xFFFF_FFFF * 0xFFFF_FFFF)
                by (nonlinear_arith)
                requires
                    0 <= (width as int) <= 0xFFFF_FFFF,
                    0 <= (height as int) <= 0xFFFF_FFFF;
            assert(4 * ((width as int) * (height as int))
                == 4 * (width as int) * (height as int)) by (nonlinear_arith);
        }
        let wh: u64 = (width as u64) * (height as u64);
        if wh > u64::MAX / 4 {
            // Four bytes per pixel would exceed any addressable length.
            assert((dl as int) < 4 * (width as int) * (height as int));
            return Err(BlurError::InvalidParameter);
        }
        let expected: u64 = 4 * wh;
        if (dl as u64) == expected {
            Ok(ImageBuffer { width, height, data })
        } else {
            Err(BlurError::InvalidParameter)
        }
    }

    /// A zero-filled raster, the placeholder a result buffer starts as.
    pub fn new_zeroed(width: u32, height: u32) -> (r: ImageBuffer)
        requires
            4 * width * height <= usize::MAX,
        ensures
            r.wf(),
            r.spec_width() == width,
            r.spec_height() == height,
            forall|i: int| 0 <= i < r.spec_data().len() ==> r.spec_data()[i] == 0,
    {
        let n: u64 = 4 * (width as u64) * (height as u64);
        let mut data: Vec<u8> = Vec::new();
        let mut i: u64 = 0;
        while i < n
            invariant
                i <= n,
                n == 4 * width * height,
                data@.len() == i,
                forall|j: int| 0 <= j < data@.len() ==> data@[j] == 0,
            decreases n - i,
        {
            data.push(0);
            i = i + 1;
        }
        ImageBuffer { width, height, data }
    }

    /// Read one channel of one pixel.
    pub fn channel_at(&self, x: u32, y: u32, ch: u32) -> (r: u8)
        requires
            self.wf(),
            x < self.spec_width(),
            y < self.spec_height(),
            ch < 4,
        ensures
            r == self.spec_channel(x as int, y as int, ch as int),
    {
        let dl: usize = self.data.len();
        proof {
            assert((y as int) * (self.width as int) + (x as int)
                < (self.width as int) * (self.height as int)) by (nonlinear_arith)
                requires
                    0 <= (x as int) < (self.width as int),
                    0 <= (y as int) < (self.height as int);
            assert(4 * ((self.width as int) * (self.height as int))
                == 4 * (self.width as int) * (self.height as int)) by (nonlinear_arith);
        }
        let idx: u64 = 4 * ((y as u64) * (self.width as u64) + (x as u64)) + (ch as u64);
        self.data[idx as usize]
    }

    /// Two bytes differ by at most `tol`.
    pub open spec fn spec_byte_close(x: u8, y: u8, tol: u8) -> bool {
        x <= y + tol && y <= x + tol
    }

    /// Compare two rasters channel by channel: true exactly when they
    /// have the same dimensions and no byte differs by more than `tol`.
    /// This is how the accelerated path is checked against the reference
    /// path, allowing for the association-order differences of parallel
    /// summation.
    pub fn within_tolerance(&self, other: &ImageBuffer, tol: u8) -> (r: bool)
        requires
            self.wf(),
            other.wf(),
        ensures
            r <==> {
                &&& self.spec_width() == other.spec_width()
                &&& self.spec_height() == other.spec_height()
                &&& forall|i: int|
                    0 <= i < self.spec_data().len() ==> ImageBuffer::spec_byte_close(
                        #[trigger] self.spec_data()[i],
                        other.spec_data()[i],
                        tol,
                    )
            },
    {
        if self.width != other.width || self.height != other.height {
            return false;
        }
        let n: usize = self.data.len();
        let mut i: usize = 0;
        while i < n
            invariant
                self.wf(),
                other.wf(),
                self.spec_width() == other.spec_width(),
                self.spec_height() == other.spec_height(),
                n == self.spec_data().len(),
                n == other.spec_data().len(),
                i <= n,
                forall|j: int|
                    0 <= j < i ==> ImageBuffer::spec_byte_close(
                        #[trigger] self.spec_data()[j],
                        other.spec_data()[j],
                        tol,
                    ),
            decreases n - i,
        {
            let x: u8 = self.data[i];
            let y: u8 = other.data[i];
            let close: bool = if x >= y {
                x - y <= tol
            } else {
                y - x <= tol
            };
            if !close {
                return false;
            }
            i = i + 1;
        }
        true
    }

    /// Hand the raw bytes back out, for the encoding collaborator.
    pub fn into_raw(self) -> (r: (u32, u32, Vec<u8>))
        ensures
            r.0 == self.spec_width(),
            r.1 == self.spec_height(),
            r.2@ == self.spec_data(),
    {
        (self.width, self.height, self.data)
    }
}

} // verus!
