//! The planar image and its conversion to and from interleaved buffers.

use vstd::prelude::*;
use vstd::arithmetic::div_mod::lemma_fundamental_div_mod_converse;
use crate::buffer::{channel_bytes, channel_new, channel_push, channel_slice};
use crate::rgb::{triples, Iter};

verus! {

/// What an image is, mathematically: three channels and two dimensions.
pub struct RgbImgView {
    pub r: Seq<u8>,
    pub g: Seq<u8>,
    pub b: Seq<u8>,
    pub height: nat,
    pub width: nat,
}

impl RgbImgView {
    /// Every channel holds one byte per pixel.
    pub open spec fn well_formed(self) -> bool {
        &&& self.r.len() == self.height * self.width
        &&& self.g.len() == self.height * self.width
        &&& self.b.len() == self.height * self.width
    }

    /// The interleaved form: for each pixel in turn its red, green and blue
    /// byte.
    pub open spec fn packed(self) -> Seq<u8> {
        Seq::new(
            3 * self.height * self.width,
            |k: int|
                if k % 3 == 0 {
                    self.r[k / 3]
                } else if k % 3 == 1 {
                    self.g[k / 3]
                } else {
                    self.b[k / 3]
                },
        )
    }
}

/// The image that an interleaved buffer describes: pixel `i` takes its red,
/// green and blue byte from positions `3 * i`, `3 * i + 1` and `3 * i + 2`.
/// Bytes behind the last pixel play no part.
pub open spec fn planar(buf: Seq<u8>, height: nat, width: nat) -> RgbImgView {
    RgbImgView {
        r: Seq::new(height * width, |i: int| buf[3 * i]),
        g: Seq::new(height * width, |i: int| buf[3 * i + 1]),
        b: Seq::new(height * width, |i: int| buf[3 * i + 2]),
        height,
        width,
    }
}

/// The rows of a decoded frame as sequences of bytes.
pub open spec fn rows_view(rows: Seq<Vec<u8>>) -> Seq<Seq<u8>> {
    Seq::new(rows.len(), |y: int| rows[y]@)
}

/// There are at least `height` rows, and each of the first `height` holds at
/// least `width` pixels of `channels` bytes.
pub open spec fn rows_fit(rows: Seq<Seq<u8>>, height: nat, width: nat, channels: nat) -> bool {
    &&& rows.len() >= height
    &&& forall|y: int| 0 <= y < height ==> (#[trigger] rows[y]).len() >= channels * width
}

/// The image that `height` rows of `width` pixels describe, where a pixel
/// occupies `channels` bytes of its row and the first three of them are its
/// red, green and blue byte. Pixel `i` lies in row `i / width` at column
/// `i % width`.
pub open spec fn planar_of_rows(
    rows: Seq<Seq<u8>>,
    height: nat,
    width: nat,
    channels: nat,
) -> RgbImgView {
    RgbImgView {
        r: Seq::new(
            height * width,
            |i: int| rows[i / (width as int)][channels * (i % (width as int))],
        ),
        g: Seq::new(
            height * width,
            |i: int| rows[i / (width as int)][channels * (i % (width as int)) + 1],
        ),
        b: Seq::new(
            height * width,
            |i: int| rows[i / (width as int)][channels * (i % (width as int)) + 2],
        ),
        height,
        width,
    }
}

/// Splitting a buffer of exactly `3 * height * width` bytes into channels and
/// interleaving them again gives the buffer back, byte for byte.
pub proof fn lemma_packed_of_planar(buf: Seq<u8>, height: nat, width: nat)
    requires
        buf.len() == 3 * height * width,
    ensures
        planar(buf, height, width).packed() == buf,
{
    let img = planar(buf, height, width);
    assert(3 * (height * width) == 3 * height * width) by (nonlinear_arith);
    assert forall|k: int| 0 <= k < buf.len() implies img.packed()[k] == buf[k] by {
        assert(3 * (k / 3) + k % 3 == k);
    }
    assert(img.packed() =~= buf);
}

/// Interleaving the channels of a well-formed image and splitting the result
/// with the same dimensions gives the image back.
pub proof fn lemma_planar_of_packed(img: RgbImgView)
    requires
        img.well_formed(),
    ensures
        planar(img.packed(), img.height, img.width) == img,
{
    let back = planar(img.packed(), img.height, img.width);
    assert(3 * (img.height * img.width) == 3 * img.height * img.width) by (nonlinear_arith);
    assert(back.r =~= img.r);
    assert(back.g =~= img.g);
    assert(back.b =~= img.b);
}

/// The rows of `width` pixels that an interleaved buffer holds one behind
/// the other, three bytes a pixel.
pub open spec fn packed_rows(buf: Seq<u8>, height: nat, width: nat) -> Seq<Seq<u8>> {
    Seq::new(height, |y: int| buf.subrange(3 * width * y, 3 * width * (y + 1)))
}

/// Gathering an image from the rows of an interleaved buffer, three bytes a
/// pixel, gives the image that the buffer describes as a whole.
pub proof fn lemma_rows_of_packed(buf: Seq<u8>, height: nat, width: nat)
    requires
        buf.len() >= 3 * height * width,
    ensures
        rows_fit(packed_rows(buf, height, width), height, width, 3),
        planar_of_rows(packed_rows(buf, height, width), height, width, 3) == planar(
            buf,
            height,
            width,
        ),
{
    let rows = packed_rows(buf, height, width);
    let w = width as int;
    assert forall|y: int| 0 <= y < height implies (#[trigger] rows[y]).len() == 3 * width by {
        assert(0 <= 3 * w * y <= 3 * w * (y + 1) <= 3 * height * width) by (nonlinear_arith)
            requires
                0 <= y < height,
                0 <= w,
                w == width,
        ;
        assert(3 * w * (y + 1) - 3 * w * y == 3 * w) by (nonlinear_arith);
    }
    let by_rows = planar_of_rows(rows, height, width, 3);
    let whole = planar(buf, height, width);
    assert forall|i: int| 0 <= i < height * width implies {
        &&& by_rows.r[i] == whole.r[i]
        &&& by_rows.g[i] == whole.g[i]
        &&& by_rows.b[i] == whole.b[i]
    } by {
        assert(w > 0) by (nonlinear_arith)
            requires
                0 <= i < height * width,
                w == width,
        ;
        let y = i / w;
        let x = i % w;
        assert(i == w * y + x && 0 <= x < w) by {
            vstd::arithmetic::div_mod::lemma_fundamental_div_mod(i, w);
        }
        assert(0 <= y < height) by (nonlinear_arith)
            requires
                0 <= i < height * width,
                i == w * y + x,
                0 <= x < w,
                w == width,
        ;
        assert(3 * w * y + 3 * x == 3 * i) by (nonlinear_arith)
            requires
                i == w * y + x,
        ;
        assert(rows[y].len() == 3 * width);
        assert(0 <= 3 * w * y && 3 * w * y + 3 * w == 3 * w * (y + 1) && 3 * w * (y + 1) <= 3
            * height * width) by (nonlinear_arith)
            requires
                0 <= y < height,
                0 <= w,
                w == width,
        ;
        assert(rows[y] == buf.subrange(3 * w * y, 3 * w * (y + 1)));
        assert(rows[y][3 * x] == buf[3 * w * y + 3 * x]);
        assert(rows[y][3 * x + 1] == buf[3 * w * y + 3 * x + 1]);
        assert(rows[y][3 * x + 2] == buf[3 * w * y + 3 * x + 2]);
    }
    assert(by_rows.r =~= whole.r);
    assert(by_rows.g =~= whole.g);
    assert(by_rows.b =~= whole.b);
}

/// An 8-bit RGB image stored channel by channel.
#[derive(Debug)]
pub struct RgbImg {
    r: minivec::MiniVec<u8>,
    g: minivec::MiniVec<u8>,
    b: minivec::MiniVec<u8>,
    height: u32,
    width: u32,
}

impl View for RgbImg {
    type V = RgbImgView;

    closed spec fn view(&self) -> RgbImgView {
        RgbImgView {
            r: channel_bytes(self.r),
            g: channel_bytes(self.g),
            b: channel_bytes(self.b),
            height: self.height as nat,
            width: self.width as nat,
        }
    }
}

impl RgbImg {
    #[verifier::type_invariant]
    spec fn inv(self) -> bool {
        self@.well_formed()
    }

    /// The image of no pixels.
    pub fn new() -> (img: RgbImg)
        ensures
            img@.height == 0,
            img@.width == 0,
            img@.r == Seq::<u8>::empty(),
            img@.g == Seq::<u8>::empty(),
            img@.b == Seq::<u8>::empty(),
    {
        RgbImg { r: channel_new(), g: channel_new(), b: channel_new(), height: 0, width: 0 }
    }

    /// Splits an interleaved buffer of at least `3 * height * width` bytes
    /// into the three channels. The buffer is copied, never kept.
    pub fn from_packed_buf(buf: &[u8], height: u32, width: u32) -> (img: RgbImg)
        requires
            buf@.len() >= 3 * height * width,
        ensures
            img@ == planar(buf@, height as nat, width as nat),
            img@.well_formed(),
            forall|i: int|
                0 <= i < height * width ==> {
                    &&& #[trigger] img@.r[i] == buf@[3 * i]
                    &&& img@.g[i] == buf@[3 * i + 1]
                    &&& img@.b[i] == buf@[3 * i + 2]
                },
    {
        assert(3 * (height * width) == 3 * height * width) by (nonlinear_arith);
        assert(0 <= height * width) by (nonlinear_arith);
        let len: usize = buf.len();
        let total: usize = (height as usize) * (width as usize);
        let mut r = channel_new();
        let mut g = channel_new();
        let mut b = channel_new();
        let mut i: usize = 0;
        while i < total
            invariant
                i <= total,
                3 * total <= len,
                len == buf@.len(),
                channel_bytes(r) == Seq::new(i as nat, |j: int| buf@[3 * j]),
                channel_bytes(g) == Seq::new(i as nat, |j: int| buf@[3 * j + 1]),
                channel_bytes(b) == Seq::new(i as nat, |j: int| buf@[3 * j + 2]),
            decreases total - i,
        {
            channel_push(&mut r, buf[3 * i]);
            channel_push(&mut g, buf[3 * i + 1]);
            channel_push(&mut b, buf[3 * i + 2]);
            i += 1;
            assert(channel_bytes(r) =~= Seq::new(i as nat, |j: int| buf@[3 * j]));
            assert(channel_bytes(g) =~= Seq::new(i as nat, |j: int| buf@[3 * j + 1]));
            assert(channel_bytes(b) =~= Seq::new(i as nat, |j: int| buf@[3 * j + 2]));
        }
        RgbImg { r, g, b, height, width }
    }

    /// Gathers an image from the rows of a decoded frame, in which a pixel
    /// occupies `channels` bytes and starts with its red, green and blue
    /// byte. Gives `None` where a pixel would hold fewer than three bytes,
    /// where rows are missing, or where a row is too short for `width` pixels.
    pub fn from_rows(rows: &Vec<Vec<u8>>, height: u32, width: u32, channels: usize) -> (res: Option<
        RgbImg,
    >)
        ensures
            res is Some <==> channels >= 3 && rows_fit(
                rows_view(rows@),
                height as nat,
                width as nat,
                channels as nat,
            ),
            res matches Some(img) ==> img@ == planar_of_rows(
                rows_view(rows@),
                height as nat,
                width as nat,
                channels as nat,
            ) && img@.well_formed(),
    {
        let h: usize = height as usize;
        let w: usize = width as usize;
        if channels < 3 || rows.len() < h {
            return None;
        }
        let ghost view = rows_view(rows@);
        let mut r = channel_new();
        let mut g = channel_new();
        let mut b = channel_new();
        let mut y: usize = 0;
        while y < h
            invariant
                y <= h,
                h == height,
                w == width,
                rows@.len() >= h,
                channels >= 3,
                view == rows_view(rows@),
                forall|k: int| 0 <= k < y ==> (#[trigger] view[k]).len() >= channels * w,
                channel_bytes(r) == channel_of_rows(view, (y * w) as nat, w as nat, channels as nat, 0),
                channel_bytes(g) == channel_of_rows(view, (y * w) as nat, w as nat, channels as nat, 1),
                channel_bytes(b) == channel_of_rows(view, (y * w) as nat, w as nat, channels as nat, 2),
            decreases h - y,
        {
            let row = rows[y].as_slice();
            assert(row@ == view[y as int]);
            let len: usize = row.len();
            match channels.checked_mul(w) {
                Some(needed) => {
                    if len < needed {
                        assert(view[y as int].len() < channels * w);
                        return None;
                    }
                },
                None => {
                    assert(view[y as int].len() < channels * w);
                    return None;
                },
            }
            append_row(&mut r, &mut g, &mut b, row, w, channels);
            proof {
                lemma_channel_append_row(view, y as nat, w as nat, channels as nat, 0);
                lemma_channel_append_row(view, y as nat, w as nat, channels as nat, 1);
                lemma_channel_append_row(view, y as nat, w as nat, channels as nat, 2);
            }
            y += 1;
        }
        let ghost img = planar_of_rows(view, height as nat, width as nat, channels as nat);
        assert(img.r =~= channel_bytes(r));
        assert(img.g =~= channel_bytes(g));
        assert(img.b =~= channel_bytes(b));
        Some(RgbImg { r, g, b, height, width })
    }

    /// The interleaved form of the image, in a buffer of its own of exactly
    /// `3 * height * width` bytes.
    pub fn to_packed_buf(&self) -> (buf: Vec<u8>)
        ensures
            buf@ == self@.packed(),
            buf@.len() == 3 * self@.height * self@.width,
    {
        proof {
            use_type_invariant(self);
        }
        let r = channel_slice(&self.r);
        let g = channel_slice(&self.g);
        let b = channel_slice(&self.b);
        let total: usize = r.len();
        let ghost view = self@;
        assert(3 * (view.height * view.width) == 3 * view.height * view.width) by (nonlinear_arith);
        let mut buf: Vec<u8> = Vec::new();
        let mut i: usize = 0;
        while i < total
            invariant
                i <= total,
                total == view.height * view.width,
                r@ == view.r,
                g@ == view.g,
                b@ == view.b,
                view.well_formed(),
                view.packed().len() == 3 * total,
                buf@.len() == 3 * i,
                forall|k: int| 0 <= k < 3 * i ==> buf@[k] == #[trigger] view.packed()[k],
            decreases total - i,
        {
            buf.push(r[i]);
            buf.push(g[i]);
            buf.push(b[i]);
            i += 1;
        }
        assert(buf@ =~= view.packed());
        buf
    }

    /// A traversal of the pixels in row-major order.
    pub fn iter(&self) -> (it: Iter<'_, u8>)
        ensures
            it@ == triples(self@.r, self@.g, self@.b),
            it@.len() == self@.height * self@.width,
    {
        proof {
            use_type_invariant(self);
        }
        Iter::new(channel_slice(&self.r), channel_slice(&self.g), channel_slice(&self.b))
    }

    /// The number of rows.
    pub fn height(&self) -> (h: u32)
        ensures
            h == self@.height,
    {
        self.height
    }

    /// The number of pixels in a row.
    pub fn width(&self) -> (w: u32)
        ensures
            w == self@.width,
    {
        self.width
    }

    /// The number of pixels, `height * width`.
    pub fn total(&self) -> (n: usize)
        ensures
            n == self@.height * self@.width,
            self@.well_formed(),
    {
        proof {
            use_type_invariant(self);
        }
        channel_slice(&self.r).len()
    }

    /// The red channel, one byte per pixel in row-major order.
    pub fn r(&self) -> (s: &[u8])
        ensures
            s@ == self@.r,
            self@.well_formed(),
    {
        proof {
            use_type_invariant(self);
        }
        channel_slice(&self.r)
    }

    /// The green channel, one byte per pixel in row-major order.
    pub fn g(&self) -> (s: &[u8])
        ensures
            s@ == self@.g,
            self@.well_formed(),
    {
        proof {
            use_type_invariant(self);
        }
        channel_slice(&self.g)
    }

    /// The blue channel, one byte per pixel in row-major order.
    pub fn b(&self) -> (s: &[u8])
        ensures
            s@ == self@.b,
            self@.well_formed(),
    {
        proof {
            use_type_invariant(self);
        }
        channel_slice(&self.b)
    }
}

/// One channel of `planar_of_rows`, up to pixel `len`: the byte at `offset`
/// within each pixel.
spec fn channel_of_rows(
    rows: Seq<Seq<u8>>,
    len: nat,
    width: nat,
    channels: nat,
    offset: nat,
) -> Seq<u8> {
    Seq::new(
        len,
        |i: int| rows[i / (width as int)][channels * (i % (width as int)) + offset],
    )
}

/// Appending row `y` to the first `y` rows of a channel gives its first
/// `y + 1` rows.
proof fn lemma_channel_append_row(
    rows: Seq<Seq<u8>>,
    y: nat,
    width: nat,
    channels: nat,
    offset: nat,
)
    ensures
        channel_of_rows(rows, y * width, width, channels, offset) + Seq::new(
            width,
            |x: int| rows[y as int][channels * x + offset],
        ) == channel_of_rows(rows, (y + 1) * width, width, channels, offset),
{
    let whole = channel_of_rows(rows, (y + 1) * width, width, channels, offset);
    let joined = channel_of_rows(rows, y * width, width, channels, offset) + Seq::new(
        width,
        |x: int| rows[y as int][channels * x + offset],
    );
    assert((y + 1) * width == y * width + width) by (nonlinear_arith);
    assert(joined.len() == whole.len());
    assert forall|i: int| 0 <= i < whole.len() implies joined[i] == whole[i] by {
        if i >= y * width {
            lemma_fundamental_div_mod_converse(i, width as int, y as int, i - y * width);
        }
    }
    assert(joined =~= whole);
}

/// Copies the first three bytes of each of the `width` pixels of a row behind
/// what the three channels hold.
fn append_row(
    r: &mut minivec::MiniVec<u8>,
    g: &mut minivec::MiniVec<u8>,
    b: &mut minivec::MiniVec<u8>,
    row: &[u8],
    width: usize,
    channels: usize,
)
    requires
        channels >= 3,
        row@.len() >= channels * width,
    ensures
        channel_bytes(*final(r)) == channel_bytes(*old(r)) + Seq::new(
            width as nat,
            |x: int| row@[channels * x],
        ),
        channel_bytes(*final(g)) == channel_bytes(*old(g)) + Seq::new(
            width as nat,
            |x: int| row@[channels * x + 1],
        ),
        channel_bytes(*final(b)) == channel_bytes(*old(b)) + Seq::new(
            width as nat,
            |x: int| row@[channels * x + 2],
        ),
{
    let len: usize = row.len();
    let mut x: usize = 0;
    while x < width
        invariant
            x <= width,
            channels >= 3,
            len == row@.len(),
            len >= channels * width,
            channel_bytes(*r) == channel_bytes(*old(r)) + Seq::new(
                x as nat,
                |k: int| row@[channels * k],
            ),
            channel_bytes(*g) == channel_bytes(*old(g)) + Seq::new(
                x as nat,
                |k: int| row@[channels * k + 1],
            ),
            channel_bytes(*b) == channel_bytes(*old(b)) + Seq::new(
                x as nat,
                |k: int| row@[channels * k + 2],
            ),
        decreases width - x,
    {
        assert(channels * x + channels <= channels * width) by (nonlinear_arith)
            requires
                x < width,
        ;
        let at: usize = channels * x;
        channel_push(r, row[at]);
        channel_push(g, row[at + 1]);
        channel_push(b, row[at + 2]);
        x += 1;
        assert(channel_bytes(*r) =~= channel_bytes(*old(r)) + Seq::new(
            x as nat,
            |k: int| row@[channels * k],
        ));
        assert(channel_bytes(*g) =~= channel_bytes(*old(g)) + Seq::new(
            x as nat,
            |k: int| row@[channels * k + 1],
        ));
        assert(channel_bytes(*b) =~= channel_bytes(*old(b)) + Seq::new(
            x as nat,
            |k: int| row@[channels * k + 2],
        ));
    }
}

} // verus!
