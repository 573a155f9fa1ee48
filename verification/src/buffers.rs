use vstd::prelude::*;

verus! {

/// Pixel format of a captured buffer.
#[derive(Debug, Clone, Copy, PartialEq, Eq, Structural)]
pub enum PixelFormat {
    /// ARGB with 8 bits per channel (Wayland's most common format)
    Argb8888,
    /// XRGB with 8 bits per channel (opaque, alpha ignored)
    Xrgb8888,
    /// XBGR with 8 bits per channel
    Xbgr8888,
    /// ABGR with 8 bits per channel
    Abgr8888,
}

impl PixelFormat {
    /// Bytes per pixel for this format (always 4 for 32-bit formats).
    pub fn bytes_per_pixel(&self) -> (bpp: u32)
        ensures
            bpp == 4,
    {
        4
    }
}

/// A captured image buffer holding raw pixel data.
#[derive(Debug, Clone)]
pub struct CaptureBuffer {
    /// Image width in pixels
    pub width: u32,
    /// Image height in pixels
    pub height: u32,
    /// Row stride in bytes (may include padding)
    pub stride: u32,
    /// Pixel format of the data
    pub format: PixelFormat,
    /// Raw pixel data, row-major, `stride * height` bytes
    pub data: Vec<u8>,
}

/// The mathematical content of a `CaptureBuffer`: its geometry and its bytes.
#[verifier::ext_equal]
pub struct BufferView {
    pub width: u32,
    pub height: u32,
    pub stride: u32,
    pub format: PixelFormat,
    pub data: Seq<u8>,
}

impl View for CaptureBuffer {
    type V = BufferView;

    open spec fn view(&self) -> BufferView {
        BufferView {
            width: self.width,
            height: self.height,
            stride: self.stride,
            format: self.format,
            data: self.data@,
        }
    }
}

impl CaptureBuffer {
    /// Create a new capture buffer with pre-allocated zeroed data.
    pub fn new(width: u32, height: u32, stride: u32, format: PixelFormat) -> (buf: Self)
        requires
            stride * height <= u32::MAX,
        ensures
            buf.width == width,
            buf.height == height,
            buf.stride == stride,
            buf.format == format,
            buf.data@ == Seq::new((stride * height) as nat, |i: int| 0u8),
    {
        let size = (stride * height) as usize;
        let data = zeroed_bytes(size);
        Self { width, height, stride, format, data }
    }

    /// Total size of the pixel data in bytes.
    pub fn data_size(&self) -> (size: usize)
        requires
            self.stride * self.height <= u32::MAX,
        ensures
            size == self.stride * self.height,
    {
        (self.stride * self.height) as usize
    }

    /// A buffer of the given geometry holding the first `stride * height`
    /// bytes of a shared-memory pool the compositor copied a frame into.
    pub fn from_pool_bytes(pool: &[u8], width: u32, height: u32, stride: u32, format: PixelFormat) -> (buf: Self)
        requires
            stride * height <= u32::MAX,
            stride * height <= pool@.len(),
        ensures
            buf@ == (BufferView { width, height, stride, format, data: pool@.take(stride * height) }),
    {
        let size = (stride * height) as usize;
        let mut data: Vec<u8> = Vec::with_capacity(size);
        let mut i: usize = 0;
        while i < size
            invariant
                i <= size,
                size <= pool@.len(),
                data@ == pool@.take(i as int),
            decreases size - i,
        {
            data.push(pool[i]);
            assert(pool@.take(i + 1) =~= pool@.take(i as int).push(pool@[i as int]));
            i += 1;
        }
        CaptureBuffer { width, height, stride, format, data }
    }

    /// A copy of this buffer with the same geometry, format and bytes.
    pub fn duplicate(&self) -> (copy: Self)
        ensures
            copy@ == self@,
    {
        let data = copy_bytes(&self.data);
        CaptureBuffer {
            width: self.width,
            height: self.height,
            stride: self.stride,
            format: self.format,
            data,
        }
    }
}

/// Splitting an index of a packed row-major layout into row and offset in the row.
pub proof fn lemma_split_index(i: int, w: int, row: int, col: int)
    requires
        w > 0,
        0 <= col < w,
        i == row * w + col,
    ensures
        i / w == row,
        i % w == col,
{
    vstd::arithmetic::div_mod::lemma_fundamental_div_mod_converse(i, w, row, col);
}

/// A vector of `n` zero bytes.
pub fn zeroed_bytes(n: usize) -> (v: Vec<u8>)
    ensures
        v@ == Seq::new(n as nat, |i: int| 0u8),
{
    let mut v: Vec<u8> = Vec::with_capacity(n);
    let mut i: usize = 0;
    while i < n
        invariant
            i <= n,
            v@ == Seq::new(i as nat, |j: int| 0u8),
        decreases n - i,
    {
        v.push(0u8);
        i += 1;
    }
    v
}

/// An element-by-element copy of a byte vector.
pub fn copy_bytes(src: &Vec<u8>) -> (v: Vec<u8>)
    ensures
        v@ == src@,
{
    let mut v: Vec<u8> = Vec::with_capacity(src.len());
    let mut i: usize = 0;
    while i < src.len()
        invariant
            i <= src.len(),
            v@ == src@.take(i as int),
        decreases src.len() - i,
    {
        v.push(src[i]);
        i += 1;
    }
    assert(src@.take(src.len() as int) == src@);
    v
}

} // verus!
