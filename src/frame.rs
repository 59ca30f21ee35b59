//! Pixel buffers: three-channel frames as a capture device yields them and
//! four-channel frames as the GPU takes them.
use vstd::prelude::*;

verus! {

/// What a frame holds, as plain values: its size and its bytes, row by row.
pub struct FrameView {
    pub width: u32,
    pub height: u32,
    pub bytes: Seq<u8>,
}

/// Number of pixels of a `width` by `height` frame.
pub open spec fn pixel_count(width: u32, height: u32) -> int {
    width as int * height as int
}

/// A frame of any size has at most `(2^32 - 1)^2` pixels.
pub proof fn lemma_pixel_count_bound(width: u32, height: u32)
    ensures
        0 <= pixel_count(width, height) <= 0xFFFF_FFFE_0000_0001,
{
    assert(0 <= width as int * height as int <= 0xFFFF_FFFF * 0xFFFF_FFFF) by (nonlinear_arith)
        requires
            width <= 0xFFFF_FFFF,
            height <= 0xFFFF_FFFF,
    ;
}

/// The pixel at index `p` of a three-channel buffer.
pub open spec fn rgb_at(bytes: Seq<u8>, p: int) -> (u8, u8, u8) {
    (bytes[3 * p], bytes[3 * p + 1], bytes[3 * p + 2])
}

/// The pixel at index `p` of a four-channel buffer.
pub open spec fn rgba_at(bytes: Seq<u8>, p: int) -> (u8, u8, u8, u8) {
    (bytes[4 * p], bytes[4 * p + 1], bytes[4 * p + 2], bytes[4 * p + 3])
}

/// `rgba` is `rgb` with a fully opaque alpha channel appended to each pixel.
pub open spec fn is_expansion(rgb: Seq<u8>, rgba: Seq<u8>) -> bool {
    &&& rgb.len() % 3 == 0
    &&& rgba.len() == rgb.len() / 3 * 4
    &&& forall|p: int|
        0 <= p < rgb.len() / 3 ==> #[trigger] rgba_at(rgba, p) == (
            rgb_at(rgb, p).0,
            rgb_at(rgb, p).1,
            rgb_at(rgb, p).2,
            255u8,
        )
}

/// The four-channel frame that a three-channel frame becomes.
pub open spec fn expanded(f: FrameView) -> FrameView {
    FrameView {
        width: f.width,
        height: f.height,
        bytes: Seq::new(
            (f.bytes.len() / 3 * 4) as nat,
            |i: int| if i % 4 == 3 { 255u8 } else { f.bytes[(i / 4) * 3 + i % 4] },
        ),
    }
}

/// A three-channel frame: three bytes (red, green, blue) per pixel.
pub struct RgbFrame {
    width: u32,
    height: u32,
    data: Vec<u8>,
}

/// A four-channel frame: four bytes (red, green, blue, alpha) per pixel.
pub struct RgbaFrame {
    width: u32,
    height: u32,
    data: Vec<u8>,
}

impl View for RgbFrame {
    type V = FrameView;

    closed spec fn view(&self) -> FrameView {
        FrameView { width: self.width, height: self.height, bytes: self.data@ }
    }
}

impl View for RgbaFrame {
    type V = FrameView;

    closed spec fn view(&self) -> FrameView {
        FrameView { width: self.width, height: self.height, bytes: self.data@ }
    }
}

/// A three-channel frame of this size holds exactly these bytes, and its
/// four-channel form fits in memory.
pub open spec fn rgb_well_formed(v: FrameView) -> bool {
    &&& v.bytes.len() == 3 * pixel_count(v.width, v.height)
    &&& 4 * pixel_count(v.width, v.height) <= usize::MAX
}

/// A four-channel frame of this size holds exactly these bytes.
pub open spec fn rgba_well_formed(v: FrameView) -> bool {
    v.bytes.len() == 4 * pixel_count(v.width, v.height)
}

impl RgbFrame {
    #[verifier::type_invariant]
    closed spec fn inv(self) -> bool {
        rgb_well_formed(self@)
    }

    /// Takes `data` as the pixels of a `width` by `height` frame; `None` when
    /// its length is not three bytes per pixel, or when the frame's
    /// four-channel form would not fit in memory.
    pub fn from_raw(width: u32, height: u32, data: Vec<u8>) -> (r: Option<RgbFrame>)
        ensures
            r.is_some() <==> rgb_well_formed(FrameView { width, height, bytes: data@ }),
            r.is_some() ==> r.unwrap()@ == (FrameView { width, height, bytes: data@ }),
    {
        proof { lemma_pixel_count_bound(width, height); }
        let n: u64 = width as u64 * height as u64;
        if n <= usize::MAX as u64 / 4 && data.len() == 3 * (n as usize) {
            Some(RgbFrame { width, height, data })
        } else {
            None
        }
    }

    pub fn width(&self) -> (r: u32)
        ensures
            r == self@.width,
    {
        self.width
    }

    pub fn height(&self) -> (r: u32)
        ensures
            r == self@.height,
    {
        self.height
    }

    pub fn as_bytes(&self) -> (r: &[u8])
        ensures
            r@ == self@.bytes,
            rgb_well_formed(self@),
    {
        proof { use_type_invariant(self); }
        self.data.as_slice()
    }

    pub fn into_raw(self) -> (r: Vec<u8>)
        ensures
            r@ == self@.bytes,
    {
        self.data
    }
}

impl RgbaFrame {
    #[verifier::type_invariant]
    closed spec fn inv(self) -> bool {
        rgba_well_formed(self@)
    }

    /// Takes `data` as the pixels of a `width` by `height` frame; `None` when
    /// its length is not four bytes per pixel.
    pub fn from_raw(width: u32, height: u32, data: Vec<u8>) -> (r: Option<RgbaFrame>)
        ensures
            r.is_some() <==> data@.len() == 4 * pixel_count(width, height),
            r.is_some() ==> r.unwrap()@ == (FrameView { width, height, bytes: data@ }),
    {
        proof { lemma_pixel_count_bound(width, height); }
        let n: u64 = width as u64 * height as u64;
        let len: usize = data.len();
        proof {
            if n > usize::MAX as u64 / 4 {
                assert(4 * n > usize::MAX);
            }
        }
        if n <= usize::MAX as u64 / 4 && len == 4 * (n as usize) {
            Some(RgbaFrame { width, height, data })
        } else {
            None
        }
    }

    /// A `width` by `height` frame whose bytes are all zero.
    pub fn blank(width: u32, height: u32) -> (r: RgbaFrame)
        requires
            4 * pixel_count(width, height) <= usize::MAX,
        ensures
            r@ == (FrameView {
                width,
                height,
                bytes: Seq::new((4 * pixel_count(width, height)) as nat, |i: int| 0u8),
            }),
    {
        proof { lemma_pixel_count_bound(width, height); }
        let len: usize = 4 * (width as u64 * height as u64) as usize;
        let mut data: Vec<u8> = Vec::with_capacity(len);
        let mut i: usize = 0;
        while i < len
            invariant
                i <= len,
                len == 4 * pixel_count(width, height),
                data@ == Seq::new(i as nat, |k: int| 0u8),
            decreases len - i,
        {
            data.push(0u8);
            i = i + 1;
        }
        RgbaFrame { width, height, data }
    }

    pub fn width(&self) -> (r: u32)
        ensures
            r == self@.width,
    {
        self.width
    }

    pub fn height(&self) -> (r: u32)
        ensures
            r == self@.height,
    {
        self.height
    }

    pub fn as_bytes(&self) -> (r: &[u8])
        ensures
            r@ == self@.bytes,
            rgba_well_formed(self@),
    {
        proof { use_type_invariant(self); }
        self.data.as_slice()
    }

    pub fn into_raw(self) -> (r: Vec<u8>)
        ensures
            r@ == self@.bytes,
    {
        self.data
    }

    /// A copy of this frame, taken by value.
    pub fn duplicate(&self) -> (r: RgbaFrame)
        ensures
            r@ == self@,
    {
        proof { use_type_invariant(self); }
        let data = self.data.clone();
        proof { assert(data@ =~= self.data@); }
        RgbaFrame { width: self.width, height: self.height, data }
    }
}

/// Turns a three-channel frame into a four-channel one of the same size, each
/// pixel `(r, g, b)` becoming `(r, g, b, 255)`.
pub fn rgb8_to_rgba8(img: RgbFrame) -> (r: RgbaFrame)
    ensures
        r@ == expanded(img@),
        is_expansion(img@.bytes, r@.bytes),
{
    proof { use_type_invariant(&img); }
    let n: usize = img.data.len() / 3;
    let mut out: Vec<u8> = Vec::with_capacity(4 * n);
    let mut p: usize = 0;
    while p < n
        invariant
            p <= n,
            n == pixel_count(img.width, img.height),
            img.data@.len() == 3 * n,
            4 * n <= usize::MAX,
            out@.len() == 4 * p,
            forall|i: int| 0 <= i < 4 * p ==> #[trigger] out@[i] == expanded(img@).bytes[i],
        decreases n - p,
    {
        let r = img.data[3 * p];
        let g = img.data[3 * p + 1];
        let b = img.data[3 * p + 2];
        out.push(r);
        out.push(g);
        out.push(b);
        out.push(255u8);
        proof {
            assert forall|k: int| 0 <= k < 4 implies (#[trigger] ((4 * p + k) / 4) == p && (4 * p
                + k) % 4 == k) by {}
        }
        p = p + 1;
    }
    proof {
        assert(out@ =~= expanded(img@).bytes);
        assert forall|q: int| 0 <= q < img@.bytes.len() / 3 implies #[trigger] rgba_at(out@, q) == (
            rgb_at(img@.bytes, q).0,
            rgb_at(img@.bytes, q).1,
            rgb_at(img@.bytes, q).2,
            255u8,
        ) by {
            assert((4 * q) / 4 == q && (4 * q) % 4 == 0);
            assert((4 * q + 1) / 4 == q && (4 * q + 1) % 4 == 1);
            assert((4 * q + 2) / 4 == q && (4 * q + 2) % 4 == 2);
            assert((4 * q + 3) / 4 == q && (4 * q + 3) % 4 == 3);
        }
    }
    RgbaFrame { width: img.width, height: img.height, data: out }
}

} // verus!
