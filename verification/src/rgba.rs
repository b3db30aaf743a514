//! The decoded image: width, height, and a flat RGBA byte buffer in
//! row-major order, four bytes per pixel. The flips and the rotation build
//! a new buffer pixel by pixel, and each is specified by where every output
//! pixel comes from in the input.

use vstd::prelude::*;

verus! {

use vstd::pervasive::VecAdditionalExecFns;

/// A decoded image: `data` holds `4 * width * height` bytes, four
/// (red, green, blue, alpha) for each pixel, row by row.
pub struct RgbaImage {
    width: u32,
    height: u32,
    data: Vec<u8>,
}

/// Which of the three pixel rearrangements to perform.
enum FlipKind {
    Horizontal,
    Vertical,
    Rotate,
}

/// The column of the input pixel that lands in output column `x`.
spec fn src_x(k: FlipKind, w: int, x: int) -> int {
    match k {
        FlipKind::Vertical => x,
        _ => w - 1 - x,
    }
}

/// The row of the input pixel that lands in output row `y`.
spec fn src_y(k: FlipKind, h: int, y: int) -> int {
    match k {
        FlipKind::Horizontal => y,
        _ => h - 1 - y,
    }
}

/// `b` is `a` mirrored left-to-right.
pub open spec fn is_fliph_of(b: RgbaImage, a: RgbaImage) -> bool {
    &&& b.spec_width() == a.spec_width()
    &&& b.spec_height() == a.spec_height()
    &&& forall|x: int, y: int|
        0 <= x < a.spec_width() && 0 <= y < a.spec_height() ==> #[trigger] b.pixel(x, y) == a.pixel(
            a.spec_width() - 1 - x,
            y,
        )
}

/// `b` is `a` mirrored top-to-bottom.
pub open spec fn is_flipv_of(b: RgbaImage, a: RgbaImage) -> bool {
    &&& b.spec_width() == a.spec_width()
    &&& b.spec_height() == a.spec_height()
    &&& forall|x: int, y: int|
        0 <= x < a.spec_width() && 0 <= y < a.spec_height() ==> #[trigger] b.pixel(x, y) == a.pixel(
            x,
            a.spec_height() - 1 - y,
        )
}

/// `b` is `a` turned upside down: mirrored in both directions.
pub open spec fn is_rotate180_of(b: RgbaImage, a: RgbaImage) -> bool {
    &&& b.spec_width() == a.spec_width()
    &&& b.spec_height() == a.spec_height()
    &&& forall|x: int, y: int|
        0 <= x < a.spec_width() && 0 <= y < a.spec_height() ==> #[trigger] b.pixel(x, y) == a.pixel(
            a.spec_width() - 1 - x,
            a.spec_height() - 1 - y,
        )
}

/// The pixels with index below `n` in row-major order (row `yy`, column
/// `xx`, counted before row `y`, column `x`) stand rearranged in `out`.
spec fn flip_ok_upto(src: RgbaImage, out: Seq<u8>, k: FlipKind, y: int, x: int) -> bool {
    forall|xx: int, yy: int|
        0 <= xx < src.spec_width() && 0 <= yy < src.spec_height() && (yy < y || (yy == y && xx < x))
            ==> out.subrange(
            4 * (yy * (src.spec_width() as int) + xx),
            4 * (yy * (src.spec_width() as int) + xx) + 4,
        ) == #[trigger] src.pixel(
            src_x(k, src.spec_width() as int, xx),
            src_y(k, src.spec_height() as int, yy),
        )
}

/// Row `y` of a row-major sequence whose rows have length `w`.
spec fn row_of<A>(s: Seq<A>, w: int, y: int) -> Seq<A> {
    s.subrange(y * w, y * w + w)
}

/// If every row of `t` holds the same values as the matching row of `s`,
/// the whole of `t` holds the same values as the whole of `s`.
proof fn lemma_rows_multiset<A>(s: Seq<A>, t: Seq<A>, w: int, h: int)
    requires
        w >= 0,
        h >= 0,
        s.len() == w * h,
        t.len() == w * h,
        forall|y: int|
            0 <= y < h ==> (#[trigger] row_of(t, w, y)).to_multiset() == row_of(
                s,
                w,
                y,
            ).to_multiset(),
    ensures
        t.to_multiset() == s.to_multiset(),
    decreases h,
{
    if h == 0 {
        assert(w * h == 0) by (nonlinear_arith)
            requires
                h == 0,
        ;
        assert(s =~= t);
    } else {
        assert(w * h == w * (h - 1) + w && w * (h - 1) >= 0 && w * (h - 1) == (h - 1) * w)
            by (nonlinear_arith)
            requires
                w >= 0,
                h >= 1,
        ;
        let s0 = s.subrange(0, w);
        let s1 = s.subrange(w, w * h);
        let t0 = t.subrange(0, w);
        let t1 = t.subrange(w, w * h);
        assert(s =~= s0 + s1);
        assert(t =~= t0 + t1);
        assert forall|y: int|
            0 <= y < h - 1 implies (#[trigger] row_of(t1, w, y)).to_multiset() == row_of(
            s1,
            w,
            y,
        ).to_multiset() by {
            assert((y + 1) * w == y * w + w && (y + 2) * w == y * w + w + w && (y + 2) * w <= h * w
                && h * w == w * h && y * w >= 0) by (nonlinear_arith)
                requires
                    0 <= y < h - 1,
                    w >= 0,
            ;
            assert(row_of(s1, w, y) =~= row_of(s, w, y + 1));
            assert(row_of(t1, w, y) =~= row_of(t, w, y + 1));
            assert((row_of(t, w, y + 1)).to_multiset() == row_of(s, w, y + 1).to_multiset());
        }
        lemma_rows_multiset(s1, t1, w, h - 1);
        assert((row_of(t, w, 0)).to_multiset() == row_of(s, w, 0).to_multiset());
        assert(0 * w == 0);
        assert(row_of(t, w, 0) =~= t0);
        assert(row_of(s, w, 0) =~= s0);
        vstd::seq_lib::lemma_multiset_commutative(s0, s1);
        vstd::seq_lib::lemma_multiset_commutative(t0, t1);
    }
}

/// If every row of `t` is the matching row of `u` reversed, the whole of
/// `t` holds the same values as the whole of `u`.
proof fn lemma_rows_reversed_multiset<A>(u: Seq<A>, t: Seq<A>, w: int, h: int)
    requires
        w >= 0,
        h >= 0,
        u.len() == w * h,
        t.len() == w * h,
        forall|y: int| 0 <= y < h ==> #[trigger] row_of(t, w, y) == row_of(u, w, y).reverse(),
    ensures
        t.to_multiset() == u.to_multiset(),
{
    assert forall|y: int|
        0 <= y < h implies (#[trigger] row_of(t, w, y)).to_multiset() == row_of(
        u,
        w,
        y,
    ).to_multiset() by {
        row_of(u, w, y).lemma_reverse_to_multiset();
    }
    lemma_rows_multiset(u, t, w, h);
}

proof fn lemma_pixel_bound(w: int, h: int, x: int, y: int)
    requires
        0 <= x < w,
        0 <= y < h,
    ensures
        0 <= 4 * (y * w + x),
        4 * (y * w + x) + 4 <= 4 * w * h,
{
    assert(4 * (y * w + x) + 4 <= 4 * w * h && y * w + x >= 0) by (nonlinear_arith)
        requires
            0 <= x < w,
            0 <= y < h,
    ;
}

/// The pixel at column `x`, row `y` stands at index `y * w + x` of the
/// row-major pixel sequence.
proof fn lemma_pixel_seq_index(a: RgbaImage, x: int, y: int)
    requires
        0 <= x < a.spec_width(),
        0 <= y < a.spec_height(),
    ensures
        0 <= y * (a.spec_width() as int) + x < (a.spec_width() as int) * (a.spec_height() as int),
        a.pixel_seq()[y * (a.spec_width() as int) + x] == a.pixel(x, y),
{
    let w = a.spec_width() as int;
    let h = a.spec_height() as int;
    assert(0 <= y * w + x < w * h) by (nonlinear_arith)
        requires
            0 <= x < w,
            0 <= y < h,
    ;
}

/// Appends the four bytes of the input pixel at column `sx`, row `sy`.
fn push_pixel(src: &RgbaImage, out: &mut Vec<u8>, sx: usize, sy: usize)
    requires
        src.wf(),
        (sx as int) < src.spec_width() as int,
        (sy as int) < src.spec_height() as int,
    ensures
        final(out)@ == old(out)@ + src.pixel(sx as int, sy as int),
{
    let n: usize = src.data.len();
    proof {
        lemma_pixel_bound(
            src.spec_width() as int,
            src.spec_height() as int,
            sx as int,
            sy as int,
        );
        assert(n as int == 4 * (src.spec_width() as int) * (src.spec_height() as int));
    }
    let w: usize = src.width as usize;
    let base: usize = 4 * (sy * w + sx);
    out.push(src.data[base]);
    out.push(src.data[base + 1]);
    out.push(src.data[base + 2]);
    out.push(src.data[base + 3]);
    proof {
        assert(out@ =~= old(out)@ + src.pixel(sx as int, sy as int));
    }
}

impl RgbaImage {
    pub closed spec fn spec_width(self) -> u32 {
        self.width
    }

    pub closed spec fn spec_height(self) -> u32 {
        self.height
    }

    /// The flat byte buffer, row-major, four bytes per pixel.
    pub closed spec fn bytes(self) -> Seq<u8> {
        self.data@
    }

    /// The buffer holds exactly four bytes for every pixel.
    pub open spec fn wf(self) -> bool {
        self.bytes().len() == 4 * (self.spec_width() as int) * (self.spec_height() as int)
    }

    /// The four bytes of the pixel at column `x`, row `y`.
    pub open spec fn pixel(self, x: int, y: int) -> Seq<u8> {
        self.bytes().subrange(
            4 * (y * (self.spec_width() as int) + x),
            4 * (y * (self.spec_width() as int) + x) + 4,
        )
    }

    /// All pixels of the image as four-byte values, in row-major order.
    pub open spec fn pixel_seq(self) -> Seq<Seq<u8>> {
        Seq::new(
            ((self.spec_width() as int) * (self.spec_height() as int)) as nat,
            |i: int| self.bytes().subrange(4 * i, 4 * i + 4),
        )
    }

    /// Builds an image from its dimensions and its bytes; rejects a buffer
    /// whose length is not exactly four bytes per pixel.
    pub fn new(width: u32, height: u32, data: Vec<u8>) -> (r: Option<RgbaImage>)
        ensures
            (match r {
                Some(img) => {
                    &&& img.wf()
                    &&& img.spec_width() == width
                    &&& img.spec_height() == height
                    &&& img.bytes() == data@
                    &&& data@.len() == 4 * (width as int) * (height as int)
                },
                None => data@.len() != 4 * (width as int) * (height as int),
            }),
    {
        proof {
            assert(4 * (width as int) * (height as int) <= 4 * 0xffff_ffff * 0xffff_ffff)
                by (nonlinear_arith)
                requires
                    0 <= width as int <= 0xffff_ffff,
                    0 <= height as int <= 0xffff_ffff,
            ;
        }
        let expected: u128 = 4u128 * (width as u128) * (height as u128);
        if data.len() as u128 == expected {
            Some(RgbaImage { width, height, data })
        } else {
            None
        }
    }

    pub fn width(&self) -> (r: u32)
        ensures
            r == self.spec_width(),
    {
        self.width
    }

    pub fn height(&self) -> (r: u32)
        ensures
            r == self.spec_height(),
    {
        self.height
    }

    /// The byte buffer, for handing to a frame or a test.
    pub fn data(&self) -> (r: &Vec<u8>)
        ensures
            r@ == self.bytes(),
    {
        &self.data
    }

    /// Builds the rearranged image: output pixel (x, y) is input pixel
    /// (src_x(k, w, x), src_y(k, h, y)).
    fn flipped(&self, k: FlipKind) -> (r: RgbaImage)
        requires
            self.wf(),
        ensures
            r.wf(),
            r.spec_width() == self.spec_width(),
            r.spec_height() == self.spec_height(),
            forall|x: int, y: int|
                0 <= x < self.spec_width() && 0 <= y < self.spec_height() ==> r.pixel(x, y)
                    == #[trigger] self.pixel(
                    src_x(k, self.spec_width() as int, x),
                    src_y(k, self.spec_height() as int, y),
                ),
    {
        let w: usize = self.width as usize;
        let h: usize = self.height as usize;
        let mut out: Vec<u8> = Vec::new();
        let mut y: usize = 0;
        while y < h
            invariant
                self.wf(),
                w == self.spec_width() as usize,
                h == self.spec_height() as usize,
                y <= h,
                out@.len() == 4 * ((y as int) * (w as int)),
                flip_ok_upto(*self, out@, k, y as int, 0),
            decreases h - y,
        {
            let mut x: usize = 0;
            while x < w
                invariant
                    self.wf(),
                    w == self.spec_width() as usize,
                    h == self.spec_height() as usize,
                    y < h,
                    x <= w,
                    out@.len() == 4 * ((y as int) * (w as int) + (x as int)),
                    flip_ok_upto(*self, out@, k, y as int, x as int),
                decreases w - x,
            {
                let sx: usize = match k {
                    FlipKind::Vertical => x,
                    _ => w - 1 - x,
                };
                let sy: usize = match k {
                    FlipKind::Horizontal => y,
                    _ => h - 1 - y,
                };
                let ghost pre = out@;
                push_pixel(self, &mut out, sx, sy);
                proof {
                    let wi = self.spec_width() as int;
                    let hi = self.spec_height() as int;
                    let xi = x as int;
                    let yi = y as int;
                    lemma_pixel_bound(wi, hi, sx as int, sy as int);
                    assert(self.pixel(sx as int, sy as int).len() == 4);
                    assert forall|xx: int, yy: int|
                        0 <= xx < wi && 0 <= yy < hi && (yy < yi || (yy == yi && xx < xi + 1))
                            implies out@.subrange(
                            4 * (yy * wi + xx),
                            4 * (yy * wi + xx) + 4,
                        ) == #[trigger] self.pixel(src_x(k, wi, xx), src_y(k, hi, yy)) by {
                        if yy == yi && xx == xi {
                            assert(out@.subrange(4 * (yy * wi + xx), 4 * (yy * wi + xx) + 4)
                                =~= self.pixel(src_x(k, wi, xx), src_y(k, hi, yy)));
                        } else {
                            assert(4 * (yy * wi + xx) + 4 <= pre.len()) by {
                                if yy < yi {
                                    assert((yy + 1) * wi <= yi * wi) by (nonlinear_arith)
                                        requires
                                            yy + 1 <= yi,
                                            wi >= 0,
                                    ;
                                    assert((yy + 1) * wi == yy * wi + wi) by (nonlinear_arith);
                                }
                            }
                            assert(out@.subrange(4 * (yy * wi + xx), 4 * (yy * wi + xx) + 4)
                                =~= pre.subrange(4 * (yy * wi + xx), 4 * (yy * wi + xx) + 4));
                        }
                    }
                }
                x += 1;
            }
            proof {
                let wi = self.spec_width() as int;
                let yi = y as int;
                assert((yi + 1) * wi == yi * wi + wi) by (nonlinear_arith);
            }
            y += 1;
        }
        let r = RgbaImage { width: self.width, height: self.height, data: out };
        proof {
            let wi = self.spec_width() as int;
            let hi = self.spec_height() as int;
            assert(4 * (hi * wi) == 4 * wi * hi) by (nonlinear_arith);
            assert forall|x: int, y: int|
                0 <= x < wi && 0 <= y < hi implies r.pixel(x, y) == #[trigger] self.pixel(
                src_x(k, wi, x),
                src_y(k, hi, y),
            ) by {
                assert(r.pixel(x, y) == r.bytes().subrange(
                    4 * (y * wi + x),
                    4 * (y * wi + x) + 4,
                ));
            }
        }
        r
    }

    /// Mirrors the image left-to-right.
    pub fn fliph(&self) -> (r: RgbaImage)
        requires
            self.wf(),
        ensures
            r.wf(),
            is_fliph_of(r, *self),
    {
        let r = self.flipped(FlipKind::Horizontal);
        proof {
            let wi = self.spec_width() as int;
            let hi = self.spec_height() as int;
            assert forall|x: int, y: int|
                0 <= x < wi && 0 <= y < hi implies #[trigger] r.pixel(x, y) == self.pixel(
                wi - 1 - x,
                y,
            ) by {
                assert(r.pixel(x, y) == self.pixel(
                    src_x(FlipKind::Horizontal, wi, x),
                    src_y(FlipKind::Horizontal, hi, y),
                ));
            }
        }
        r
    }

    /// Mirrors the image top-to-bottom.
    pub fn flipv(&self) -> (r: RgbaImage)
        requires
            self.wf(),
        ensures
            r.wf(),
            is_flipv_of(r, *self),
    {
        let r = self.flipped(FlipKind::Vertical);
        proof {
            let wi = self.spec_width() as int;
            let hi = self.spec_height() as int;
            assert forall|x: int, y: int|
                0 <= x < wi && 0 <= y < hi implies #[trigger] r.pixel(x, y) == self.pixel(
                x,
                hi - 1 - y,
            ) by {
                assert(r.pixel(x, y) == self.pixel(
                    src_x(FlipKind::Vertical, wi, x),
                    src_y(FlipKind::Vertical, hi, y),
                ));
            }
        }
        r
    }

    /// Turns the image upside down: mirrored in both directions.
    pub fn rotate180(&self) -> (r: RgbaImage)
        requires
            self.wf(),
        ensures
            r.wf(),
            is_rotate180_of(r, *self),
    {
        let r = self.flipped(FlipKind::Rotate);
        proof {
            let wi = self.spec_width() as int;
            let hi = self.spec_height() as int;
            assert forall|x: int, y: int|
                0 <= x < wi && 0 <= y < hi implies #[trigger] r.pixel(x, y) == self.pixel(
                wi - 1 - x,
                hi - 1 - y,
            ) by {
                assert(r.pixel(x, y) == self.pixel(
                    src_x(FlipKind::Rotate, wi, x),
                    src_y(FlipKind::Rotate, hi, y),
                ));
            }
        }
        r
    }

    /// Copies the image bytes into a frame buffer of the same length,
    /// index by index.
    pub fn copy_into_frame(&self, frame: &mut Vec<u8>)
        requires
            old(frame)@.len() == self.bytes().len(),
        ensures
            final(frame)@ == self.bytes(),
    {
        let mut i: usize = 0;
        while i < self.data.len()
            invariant
                frame@.len() == self.bytes().len(),
                self.bytes().len() == self.data@.len(),
                i <= self.data@.len(),
                forall|j: int| 0 <= j < i ==> frame@[j] == self.bytes()[j],
            decreases self.data@.len() - i,
        {
            frame.set(i, self.data[i]);
            i += 1;
        }
        proof {
            assert(frame@ =~= self.bytes());
        }
    }
}

/// A horizontal flip only rearranges pixels: the flipped image has as many
/// bytes as the original, and its pixels are a permutation of the
/// original's pixels.
pub proof fn lemma_fliph_permutation(a: RgbaImage, b: RgbaImage)
    requires
        a.wf(),
        b.wf(),
        is_fliph_of(b, a),
    ensures
        b.bytes().len() == a.bytes().len(),
        b.pixel_seq().to_multiset() == a.pixel_seq().to_multiset(),
{
    let w = a.spec_width() as int;
    let h = a.spec_height() as int;
    let s = a.pixel_seq();
    let t = b.pixel_seq();
    assert(w * h >= 0) by (nonlinear_arith)
        requires
            w >= 0,
            h >= 0,
    ;
    assert forall|y: int|
        0 <= y < h implies #[trigger] row_of(t, w, y) == row_of(s, w, y).reverse() by {
        assert((y + 1) * w == y * w + w && (y + 1) * w <= h * w && h * w == w * h && y * w >= 0)
            by (nonlinear_arith)
            requires
                0 <= y < h,
                w >= 0,
        ;
        assert forall|x: int|
            0 <= x < w implies row_of(t, w, y)[x] == row_of(s, w, y).reverse()[x] by {
            lemma_pixel_seq_index(b, x, y);
            lemma_pixel_seq_index(a, w - 1 - x, y);
            assert(t[y * w + x] == b.pixel(x, y));
            assert(s[y * w + (w - 1 - x)] == a.pixel(w - 1 - x, y));
            assert(b.pixel(x, y) == a.pixel(w - 1 - x, y));
        }
        assert(row_of(t, w, y) =~= row_of(s, w, y).reverse());
    }
    lemma_rows_reversed_multiset(s, t, w, h);
}

/// A vertical flip only rearranges pixels: the flipped image has as many
/// bytes as the original, and its pixels are a permutation of the
/// original's pixels.
pub proof fn lemma_flipv_permutation(a: RgbaImage, b: RgbaImage)
    requires
        a.wf(),
        b.wf(),
        is_flipv_of(b, a),
    ensures
        b.bytes().len() == a.bytes().len(),
        b.pixel_seq().to_multiset() == a.pixel_seq().to_multiset(),
{
    let w = a.spec_width() as int;
    let h = a.spec_height() as int;
    let s = a.pixel_seq();
    let t = b.pixel_seq();
    let u = s.reverse();
    assert(w * h >= 0) by (nonlinear_arith)
        requires
            w >= 0,
            h >= 0,
    ;
    assert forall|y: int|
        0 <= y < h implies #[trigger] row_of(t, w, y) == row_of(u, w, y).reverse() by {
        assert((y + 1) * w == y * w + w && (y + 1) * w <= h * w && h * w == w * h && y * w >= 0
            && (h - 1 - y) * w == w * h - w - y * w) by (nonlinear_arith)
            requires
                0 <= y < h,
                w >= 0,
        ;
        assert forall|x: int|
            0 <= x < w implies row_of(t, w, y)[x] == row_of(u, w, y).reverse()[x] by {
            lemma_pixel_seq_index(b, x, y);
            lemma_pixel_seq_index(a, x, h - 1 - y);
            assert(t[y * w + x] == b.pixel(x, y));
            assert(s[(h - 1 - y) * w + x] == a.pixel(x, h - 1 - y));
            assert(b.pixel(x, y) == a.pixel(x, h - 1 - y));
            assert(row_of(u, w, y).reverse()[x] == u[y * w + (w - 1 - x)]);
            assert(u[y * w + (w - 1 - x)] == s[w * h - 1 - (y * w + (w - 1 - x))]);
        }
        assert(row_of(t, w, y) =~= row_of(u, w, y).reverse());
    }
    lemma_rows_reversed_multiset(u, t, w, h);
    s.lemma_reverse_to_multiset();
}

/// A 180-degree rotation only rearranges pixels: the rotated image has as
/// many bytes as the original, and its pixels are a permutation of the
/// original's pixels.
pub proof fn lemma_rotate180_permutation(a: RgbaImage, b: RgbaImage)
    requires
        a.wf(),
        b.wf(),
        is_rotate180_of(b, a),
    ensures
        b.bytes().len() == a.bytes().len(),
        b.pixel_seq().to_multiset() == a.pixel_seq().to_multiset(),
{
    let w = a.spec_width() as int;
    let h = a.spec_height() as int;
    let s = a.pixel_seq();
    let t = b.pixel_seq();
    let u = s.reverse();
    assert(w * h >= 0) by (nonlinear_arith)
        requires
            w >= 0,
            h >= 0,
    ;
    assert forall|y: int| 0 <= y < h implies #[trigger] row_of(t, w, y) == row_of(u, w, y) by {
        assert((y + 1) * w == y * w + w && (y + 1) * w <= h * w && h * w == w * h && y * w >= 0
            && (h - 1 - y) * w == w * h - w - y * w) by (nonlinear_arith)
            requires
                0 <= y < h,
                w >= 0,
        ;
        assert forall|x: int| 0 <= x < w implies row_of(t, w, y)[x] == row_of(u, w, y)[x] by {
            lemma_pixel_seq_index(b, x, y);
            lemma_pixel_seq_index(a, w - 1 - x, h - 1 - y);
            assert(t[y * w + x] == b.pixel(x, y));
            assert(s[(h - 1 - y) * w + (w - 1 - x)] == a.pixel(w - 1 - x, h - 1 - y));
            assert(b.pixel(x, y) == a.pixel(w - 1 - x, h - 1 - y));
            assert(u[y * w + x] == s[w * h - 1 - (y * w + x)]);
        }
        assert(row_of(t, w, y) =~= row_of(u, w, y));
    }
    lemma_rows_multiset(u, t, w, h);
    s.lemma_reverse_to_multiset();
}

} // verus!
