use vstd::prelude::*;
use crate::error::Error;

verus! {

/// Largest byte count that a shared-memory pool can be asked for (the pool size travels
/// as a signed 32-bit integer).
pub const MAX_POOL_SIZE: u32 = 0x7fff_ffff;

/// Whether a `width` by `height` buffer with rows `stride` bytes apart can be backed by a
/// shared-memory pool: both sides non-zero, rows exactly four bytes per pixel with no
/// padding, and the byte count within what a pool can hold.
pub open spec fn valid_geometry(width: u32, height: u32, stride: u32) -> bool {
    &&& width > 0
    &&& height > 0
    &&& stride == width * 4
    &&& width * height * 4 <= MAX_POOL_SIZE
}

/// One shared-memory pixel surface: its geometry and pixel format code, and whether it has
/// been released. The backing memory file and the compositor's buffer object live with the
/// caller, who reads the file and hands its bytes to `get_bytes`.
#[derive(Debug)]
pub struct Buffer {
    width: u32,
    height: u32,
    stride: u32,
    format: u32,
    destroyed: bool,
}

impl Buffer {
    pub closed spec fn spec_width(self) -> u32 {
        self.width
    }

    pub closed spec fn spec_height(self) -> u32 {
        self.height
    }

    pub closed spec fn spec_stride(self) -> u32 {
        self.stride
    }

    pub closed spec fn spec_format(self) -> u32 {
        self.format
    }

    pub closed spec fn spec_destroyed(self) -> bool {
        self.destroyed
    }

    /// The buffer that a successful `new` returns.
    pub closed spec fn spec_new(width: u32, height: u32, stride: u32, format: u32) -> Buffer {
        Buffer { width, height, stride, format, destroyed: false }
    }

    pub fn width(&self) -> (r: u32)
        ensures
            r == self.spec_width(),
    {
        self.width
    }

    pub fn height(&self) -> (r: u32)
        ensures
            r == self.spec_height(),
    {
        self.height
    }

    pub fn stride(&self) -> (r: u32)
        ensures
            r == self.spec_stride(),
    {
        self.stride
    }

    /// The pixel format code the compositor asked for.
    pub fn format(&self) -> (r: u32)
        ensures
            r == self.spec_format(),
    {
        self.format
    }

    pub open spec fn wf(self) -> bool {
        valid_geometry(self.spec_width(), self.spec_height(), self.spec_stride())
    }

    /// Bytes of backing storage: four for each pixel.
    pub open spec fn spec_size(self) -> int {
        self.spec_width() * self.spec_height() * 4
    }

    /// What `get_bytes` returns for the bytes `region` read from the backing storage.
    pub open spec fn read_result(self, region: Seq<u8>) -> Result<Seq<u8>, Error> {
        if self.spec_destroyed() || region.len() != self.spec_size() {
            Err(Error::BufferRead)
        } else {
            Ok(region)
        }
    }

    /// Allocate the bookkeeping for a `width` by `height` buffer in pixel format `format`.
    /// Fails with `BufferAllocationFailed` unless the geometry is valid.
    pub fn new(width: u32, height: u32, stride: u32, format: u32) -> (r: Result<Buffer, Error>)
        ensures
            r is Ok <==> valid_geometry(width, height, stride),
            r is Ok ==> r->Ok_0 == Buffer::spec_new(width, height, stride, format),
            r is Ok ==> ({
                let b = r->Ok_0;
                &&& b.wf()
                &&& !b.spec_destroyed()
                &&& b.spec_width() == width
                &&& b.spec_height() == height
                &&& b.spec_stride() == stride
                &&& b.spec_format() == format
            }),
            r is Err ==> r == Err::<Buffer, Error>(Error::BufferAllocationFailed),
    {
        if width == 0 || height == 0 || width > MAX_POOL_SIZE / 4 || stride != width * 4 {
            proof {
                if width > MAX_POOL_SIZE / 4 && height > 0 {
                    assert(width * height * 4 > MAX_POOL_SIZE) by (nonlinear_arith)
                        requires
                            width > MAX_POOL_SIZE as int / 4,
                            height >= 1,
                    ;
                }
            }
            return Err(Error::BufferAllocationFailed);
        }
        let row = width as u64 * 4;
        if height as u64 > MAX_POOL_SIZE as u64 / row {
            proof {
                assert(width * height * 4 > MAX_POOL_SIZE) by (nonlinear_arith)
                    requires
                        row == width * 4,
                        row > 0,
                        height > MAX_POOL_SIZE as int / row as int,
                ;
            }
            return Err(Error::BufferAllocationFailed);
        }
        proof {
            assert(width * height * 4 <= MAX_POOL_SIZE) by (nonlinear_arith)
                requires
                    row == width * 4,
                    row > 0,
                    height <= MAX_POOL_SIZE as int / row as int,
            ;
        }
        Ok(Buffer { width, height, stride, format, destroyed: false })
    }

    /// Byte count of the backing storage.
    pub fn size(&self) -> (r: usize)
        requires
            self.wf(),
        ensures
            r == self.spec_size(),
    {
        (self.width as usize) * (self.height as usize) * 4
    }

    /// Byte count to register the shared-memory pool with.
    pub fn pool_size(&self) -> (r: i32)
        requires
            self.wf(),
        ensures
            r == self.spec_size(),
    {
        ((self.width as u32) * (self.height as u32) * 4) as i32
    }

    /// Whether `destroy` has been called.
    pub fn is_destroyed(&self) -> (r: bool)
        ensures
            r == self.spec_destroyed(),
    {
        self.destroyed
    }

    /// The pixel bytes of this buffer, given the bytes `region` read from its backing
    /// storage. Fails with `BufferRead` after `destroy`, or when the read did not yield
    /// exactly the buffer's size.
    pub fn get_bytes(&self, region: Vec<u8>) -> (r: Result<Vec<u8>, Error>)
        requires
            self.wf(),
        ensures
            match r {
                Ok(bytes) => self.read_result(region@) == Ok::<Seq<u8>, Error>(bytes@),
                Err(e) => self.read_result(region@) == Err::<Seq<u8>, Error>(e),
            },
    {
        if self.destroyed || region.len() != self.size() {
            Err(Error::BufferRead)
        } else {
            Ok(region)
        }
    }

    /// The buffer after `destroy`: the same geometry, released.
    pub closed spec fn spec_after_destroy(self) -> Buffer {
        Buffer { destroyed: true, ..self }
    }

    /// Release the buffer. Irreversible: later reads fail.
    pub fn destroy(&mut self)
        ensures
            *final(self) == old(self).spec_after_destroy(),
            final(self).spec_destroyed(),
            final(self).spec_width() == old(self).spec_width(),
            final(self).spec_height() == old(self).spec_height(),
            final(self).spec_stride() == old(self).spec_stride(),
            final(self).spec_format() == old(self).spec_format(),
    {
        self.destroyed = true;
    }
}

/// What a freshly allocated buffer holds.
pub proof fn lemma_spec_new(width: u32, height: u32, stride: u32, format: u32)
    ensures
        Buffer::spec_new(width, height, stride, format).spec_width() == width,
        Buffer::spec_new(width, height, stride, format).spec_height() == height,
        Buffer::spec_new(width, height, stride, format).spec_stride() == stride,
        Buffer::spec_new(width, height, stride, format).spec_format() == format,
        !Buffer::spec_new(width, height, stride, format).spec_destroyed(),
{
}

/// A buffer that allocation hands out for a valid geometry yields exactly
/// width × height × 4 bytes when the read returns that many (and fails otherwise), and once
/// destroyed it yields none.
pub proof fn lemma_buffer_bytes(width: u32, height: u32, stride: u32, format: u32, region: Seq<u8>)
    requires
        valid_geometry(width, height, stride),
    ensures
        ({
            let fresh = Buffer::spec_new(width, height, stride, format);
            &&& fresh.wf()
            &&& fresh.spec_size() == width * height * 4
            &&& (region.len() == width * height * 4 ==> fresh.read_result(region) == Ok::<Seq<u8>, Error>(region))
            &&& (fresh.read_result(region) is Ok ==> fresh.read_result(region)->Ok_0.len() == width * height * 4)
            &&& fresh.spec_after_destroy().read_result(region) is Err
        }),
{
}

} // verus!
