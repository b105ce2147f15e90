use vstd::prelude::*;

verus! {

/// A compositor capability that a manager needs.
#[derive(Clone, Copy, Debug, PartialEq, Eq, Structural)]
pub enum Capability {
    /// The shared-memory pool factory (`wl_shm`).
    Shm,
    /// The window-targeted capture manager.
    ToplevelExportManager,
    /// The output-targeted capture manager.
    ScreencopyManager,
}

/// Every failure that the capture core reports.
#[derive(Clone, Copy, Debug, PartialEq, Eq, Structural)]
pub enum Error {
    /// A required global was not advertised during bootstrap.
    CapabilityUnavailable(Capability),
    /// The transport failed while dispatching events.
    DispatchError,
    /// The compositor announced a pixel format code that is not a known enumerant.
    InvalidFormatEnum(u32),
    /// The requested buffer geometry cannot back a shared-memory buffer.
    BufferAllocationFailed,
    /// The compositor reported that the capture failed.
    CaptureFailed,
    /// The compositor sent an event that the protocol does not allow at this point.
    ProtocolViolation,
    /// Pixel bytes do not match the geometry they are said to have.
    ConversionError,
    /// The backing storage of a buffer could not be read.
    BufferRead,
}

} // verus!
