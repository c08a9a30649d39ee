//! A fixed-size 2D raster of packed colors, stored row-major with the origin
//! at the top left. Rectangle fills clip silently at the edges: out-of-bounds
//! cells are skipped, never an error.

use vstd::prelude::*;

verus! {

/// The color of the raster cell `(px, py)` in a row-major image of width
/// `img_w`.
pub open spec fn pixel_of(img: Seq<u32>, img_w: int, px: int, py: int) -> u32 {
    img[px + py * img_w]
}

/// Whether `(px, py)` lies in the half-open rectangle at `(x, y)` of size
/// `w × h`.
pub open spec fn in_rect(px: int, py: int, x: int, y: int, w: int, h: int) -> bool {
    x <= px < x + w && y <= py < y + h
}

/// Row-major indices are unique: two in-row positions with the same linear
/// index are the same position.
pub proof fn lemma_row_major_injective(img_w: int, ax: int, ay: int, bx: int, by: int)
    by (nonlinear_arith)
    requires
        0 <= ax < img_w,
        0 <= bx < img_w,
        ax + ay * img_w == bx + by * img_w,
    ensures
        ax == bx && ay == by,
{
}

/// A linear row-major index of an in-bounds position lies inside the image.
pub proof fn lemma_row_major_bound(img_w: int, img_h: int, ax: int, ay: int)
    by (nonlinear_arith)
    requires
        0 <= ax < img_w,
        0 <= ay < img_h,
    ensures
        0 <= ax + ay * img_w < img_w * img_h,
{
}

/// Overwrites with `color` every cell `(x + i, y + j)`, `0 <= i < w`,
/// `0 <= j < h`, that lies within the `img_w × img_h` image; cells outside
/// the image are silently skipped, and every cell outside the rectangle
/// keeps its prior color.
pub fn draw_rectangle(
    img: &mut Vec<u32>,
    img_w: usize,
    img_h: usize,
    x: usize,
    y: usize,
    w: usize,
    h: usize,
    color: u32,
)
    requires
        old(img)@.len() == img_w * img_h,
        x + w <= usize::MAX,
        y + h <= usize::MAX,
    ensures
        final(img)@.len() == old(img)@.len(),
        forall|px: int, py: int|
            0 <= px < img_w && 0 <= py < img_h ==> #[trigger] pixel_of(
                final(img)@,
                img_w as int,
                px,
                py,
            ) == if in_rect(px, py, x as int, y as int, w as int, h as int) {
                color
            } else {
                pixel_of(old(img)@, img_w as int, px, py)
            },
{
    let ghost img0: Seq<u32> = img@;
    for i in 0..w
        invariant
            img@.len() == img_w * img_h,
            img0.len() == img_w * img_h,
            x + w <= usize::MAX,
            y + h <= usize::MAX,
            forall|px: int, py: int|
                0 <= px < img_w && 0 <= py < img_h ==> #[trigger] pixel_of(
                    img@,
                    img_w as int,
                    px,
                    py,
                ) == if in_rect(px, py, x as int, y as int, i as int, h as int) {
                    color
                } else {
                    pixel_of(img0, img_w as int, px, py)
                },
    {
        for j in 0..h
            invariant
                img@.len() == img_w * img_h,
                img0.len() == img_w * img_h,
                i < w,
                x + w <= usize::MAX,
                y + h <= usize::MAX,
                forall|px: int, py: int|
                    0 <= px < img_w && 0 <= py < img_h ==> #[trigger] pixel_of(
                        img@,
                        img_w as int,
                        px,
                        py,
                    ) == if in_rect(px, py, x as int, y as int, i as int, h as int) || (px == x
                        + i && y <= py < y + j) {
                        color
                    } else {
                        pixel_of(img0, img_w as int, px, py)
                    },
        {
            let cx = x + i;
            let cy = y + j;
            if cx < img_w && cy < img_h {
                let n: usize = img.len();
                proof {
                    lemma_row_major_bound(img_w as int, img_h as int, cx as int, cy as int);
                    assert(cx + cy * img_w < n);
                }
                let ghost before: Seq<u32> = img@;
                img[cx + cy * img_w] = color;
                proof {
                    assert forall|px: int, py: int|
                        0 <= px < img_w && 0 <= py < img_h && !(px == cx && py == cy) implies
                        #[trigger] pixel_of(img@, img_w as int, px, py) == pixel_of(
                        before,
                        img_w as int,
                        px,
                        py,
                    ) by {
                        if px + py * img_w == cx + cy * img_w {
                            lemma_row_major_injective(img_w as int, px, py, cx as int, cy as int);
                        }
                        lemma_row_major_bound(img_w as int, img_h as int, px, py);
                    }
                    assert(pixel_of(img@, img_w as int, cx as int, cy as int) == color);
                }
            }
        }
    }
}

/// A fixed-size raster of `width * height` packed colors, row-major, origin
/// top-left. The length never changes after construction; drawing goes
/// through clipped rectangle fills only.
pub struct Framebuffer {
    width: usize,
    height: usize,
    pixels: Vec<u32>,
}

impl Framebuffer {
    /// The storage always holds exactly `width * height` cells.
    pub closed spec fn wf(self) -> bool {
        self.pixels@.len() == self.width * self.height
    }

    /// The pixel storage, row-major.
    pub closed spec fn view(self) -> Seq<u32> {
        self.pixels@
    }

    /// The image width in pixels.
    pub closed spec fn w(self) -> int {
        self.width as int
    }

    /// The image height in pixels.
    pub closed spec fn h(self) -> int {
        self.height as int
    }

    /// The color this buffer holds at `(px, py)`.
    pub open spec fn at(self, px: int, py: int) -> u32 {
        pixel_of(self.view(), self.w(), px, py)
    }

    /// Allocates a `width × height` buffer with every cell set to
    /// `fill_color`.
    pub fn new(width: usize, height: usize, fill_color: u32) -> (fb: Framebuffer)
        requires
            width * height <= usize::MAX,
        ensures
            fb.wf(),
            fb.w() == width,
            fb.h() == height,
            forall|px: int, py: int|
                0 <= px < width && 0 <= py < height ==> #[trigger] fb.at(px, py) == fill_color,
    {
        proof {
            assert(width * height >= 0) by (nonlinear_arith);
        }
        let pixels: Vec<u32> = vec![fill_color; width * height];
        let fb = Framebuffer { width, height, pixels };
        proof {
            assert forall|px: int, py: int| 0 <= px < width && 0 <= py < height implies #[trigger] fb.at(
                px,
                py,
            ) == fill_color by {
                lemma_row_major_bound(width as int, height as int, px, py);
                assert(cloned(fill_color, fb.pixels@[px + py * width]));
            }
        }
        fb
    }

    /// The width, as stored.
    pub fn width(&self) -> (r: usize)
        ensures
            r == self.w(),
    {
        self.width
    }

    /// The height, as stored.
    pub fn height(&self) -> (r: usize)
        ensures
            r == self.h(),
    {
        self.height
    }

    /// Reads the color at `(px, py)`; the position must be in bounds.
    pub fn pixel_at(&self, px: usize, py: usize) -> (r: u32)
        requires
            self.wf(),
            px < self.w(),
            py < self.h(),
        ensures
            r == self.at(px as int, py as int),
    {
        let n: usize = self.pixels.len();
        proof {
            lemma_row_major_bound(self.width as int, self.height as int, px as int, py as int);
            assert(px + py * self.width < n);
        }
        self.pixels[px + py * self.width]
    }

    /// Clipped rectangle fill: every cell of the rectangle that lies in
    /// bounds takes `color`; every other cell of the buffer is untouched.
    pub fn fill_rect(&mut self, x: usize, y: usize, w: usize, h: usize, color: u32)
        requires
            old(self).wf(),
            x + w <= usize::MAX,
            y + h <= usize::MAX,
        ensures
            final(self).wf(),
            final(self).w() == old(self).w(),
            final(self).h() == old(self).h(),
            forall|px: int, py: int|
                0 <= px < old(self).w() && 0 <= py < old(self).h() ==> #[trigger] final(self).at(
                    px,
                    py,
                ) == if in_rect(px, py, x as int, y as int, w as int, h as int) {
                    color
                } else {
                    old(self).at(px, py)
                },
    {
        let width = self.width;
        let height = self.height;
        draw_rectangle(&mut self.pixels, width, height, x, y, w, h, color);
    }

    /// Sets the single cell `(px, py)` to `color`; out-of-bounds positions
    /// are silently skipped, exactly as a 1×1 rectangle fill.
    pub fn set_pixel(&mut self, px: usize, py: usize, color: u32)
        requires
            old(self).wf(),
        ensures
            final(self).wf(),
            final(self).w() == old(self).w(),
            final(self).h() == old(self).h(),
            forall|qx: int, qy: int|
                0 <= qx < old(self).w() && 0 <= qy < old(self).h() ==> #[trigger] final(self).at(
                    qx,
                    qy,
                ) == if qx == px && qy == py {
                    color
                } else {
                    old(self).at(qx, qy)
                },
    {
        if px < self.width && py < self.height {
            self.fill_rect(px, py, 1, 1, color);
        }
    }

    /// Resets every cell of the buffer to `fill_color`; the dimensions are
    /// unchanged.
    pub fn clear(&mut self, fill_color: u32)
        requires
            old(self).wf(),
        ensures
            final(self).wf(),
            final(self).w() == old(self).w(),
            final(self).h() == old(self).h(),
            forall|px: int, py: int|
                0 <= px < old(self).w() && 0 <= py < old(self).h() ==> #[trigger] final(self).at(
                    px,
                    py,
                ) == fill_color,
    {
        let width = self.width;
        let height = self.height;
        self.fill_rect(0, 0, width, height, fill_color);
    }

    /// Hands out a copy of the pixel storage in row-major order, for export.
    pub fn pixels(&self) -> (r: Vec<u32>)
        ensures
            r@ == self.view(),
    {
        let mut out: Vec<u32> = Vec::new();
        let mut k: usize = 0;
        while k < self.pixels.len()
            invariant
                k <= self.pixels@.len(),
                out@ == self.pixels@.subrange(0, k as int),
            decreases self.pixels@.len() - k,
        {
            out.push(self.pixels[k]);
            k += 1;
        }
        proof {
            assert(out@ =~= self.pixels@);
        }
        out
    }
}

} // verus!
