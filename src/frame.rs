use vstd::prelude::*;
use crate::buffer::{valid_geometry, Buffer};
use crate::error::Error;

verus! {

/// Whether `code` is one of the pixel format enumerants of the shared-memory protocol.
pub uninterp spec fn shm_format_known(code: u32) -> bool;

/// Relies on wayland_client's `wl_shm::Format`: its `TryFrom<u32>` succeeds exactly for the
/// enumerants that the protocol defines, among them argb8888 (0) and xrgb8888 (1).
#[verifier::external_body]
fn is_known_format(code: u32) -> (r: bool)
    ensures
        r == shm_format_known(code),
        code == 0 || code == 1 ==> r,
{
    wayland_client::protocol::wl_shm::Format::try_from(code).is_ok()
}

/// The events a capture frame object receives, with the enumerated format passed as its
/// numeric code.
#[derive(Clone, Copy, Debug, PartialEq, Eq, Structural)]
pub enum FrameEvent {
    /// The compositor's buffer specification.
    Buffer { format: u32, width: u32, height: u32, stride: u32 },
    Damage,
    Flags,
    /// The copy is complete.
    Ready,
    /// The capture failed.
    Failed,
    LinuxDmabuf,
    BufferDone,
}

/// What the driver of a capture does next.
#[derive(Clone, Copy, Debug, PartialEq, Eq, Structural)]
pub enum DriverAction {
    /// Block for the next batch of events.
    Dispatch,
    /// Ask the compositor to copy the frame into the stored buffer.
    Copy,
    /// Tear the frame object down and return the outcome.
    Finish,
}

/// The state of one capture request: whether the copy finished, whether it was asked for,
/// the buffer the compositor specified, and the error that ended the capture.
#[derive(Debug)]
pub struct Frame {
    pub ready: bool,
    pub requested: bool,
    pub buffer: Option<Buffer>,
    pub error: Option<Error>,
}

impl Frame {
    pub open spec fn initial() -> Frame {
        Frame { ready: false, requested: false, buffer: None, error: None }
    }

    /// The capture has ended: with an error, or with a filled buffer.
    pub open spec fn is_terminal(self) -> bool {
        self.error is Some || (self.ready && self.buffer is Some)
    }

    /// The state after `event`. A failed event ends the capture whatever came before and
    /// drops the buffer. A ready event completes the copy when one was asked for, and is a
    /// protocol violation otherwise. A buffer specification is taken only while no buffer is
    /// stored and the capture has not ended; the informational events change nothing.
    pub open spec fn spec_handle(self, event: FrameEvent) -> Frame {
        match event {
            FrameEvent::Buffer { format, width, height, stride } => {
                if self.is_terminal() || self.buffer is Some {
                    self
                } else if !shm_format_known(format) {
                    Frame { error: Some(Error::InvalidFormatEnum(format)), ..self }
                } else if valid_geometry(width, height, stride) {
                    Frame { buffer: Some(Buffer::spec_new(width, height, stride, format)), ..self }
                } else {
                    Frame { error: Some(Error::BufferAllocationFailed), ..self }
                }
            },
            FrameEvent::Ready => {
                if self.requested {
                    Frame { ready: true, ..self }
                } else {
                    Frame { error: Some(Error::ProtocolViolation), ..self }
                }
            },
            FrameEvent::Failed => Frame { error: Some(Error::CaptureFailed), buffer: None, ..self },
            _ => self,
        }
    }

    /// The driver's next action and the state after it: finish once the capture has ended,
    /// ask for the copy exactly once after a buffer is stored, otherwise wait for events.
    pub open spec fn spec_poll(self) -> (Frame, DriverAction) {
        if self.is_terminal() {
            (self, DriverAction::Finish)
        } else if self.buffer is Some && !self.requested {
            (Frame { requested: true, ..self }, DriverAction::Copy)
        } else {
            (self, DriverAction::Dispatch)
        }
    }

    /// The outcome of an ended capture.
    pub open spec fn spec_finish(self) -> Result<Buffer, Error> {
        match self.error {
            Some(e) => Err(e),
            None => Ok(self.buffer->Some_0),
        }
    }

    pub fn new() -> (r: Frame)
        ensures
            r == Frame::initial(),
    {
        Frame { ready: false, requested: false, buffer: None, error: None }
    }

    /// Record an event of the frame object.
    pub fn handle_event(&mut self, event: FrameEvent)
        ensures
            *final(self) == old(self).spec_handle(event),
    {
        match event {
            FrameEvent::Buffer { format, width, height, stride } => {
                if self.error.is_some() || (self.ready && self.buffer.is_some()) || self.buffer.is_some() {
                    return;
                }
                if !is_known_format(format) {
                    self.error = Some(Error::InvalidFormatEnum(format));
                    return;
                }
                match Buffer::new(width, height, stride, format) {
                    Ok(buffer) => self.buffer = Some(buffer),
                    Err(e) => self.error = Some(e),
                }
            },
            FrameEvent::Ready => {
                if self.requested {
                    self.ready = true;
                } else {
                    self.error = Some(Error::ProtocolViolation);
                }
            },
            FrameEvent::Failed => {
                self.error = Some(Error::CaptureFailed);
                self.buffer = None;
            },
            _ => {},
        }
    }

    /// Record that the storage behind the stored buffer could not be set up; this ends the
    /// capture.
    pub fn allocation_failed(&mut self)
        ensures
            final(self).error == Some(Error::BufferAllocationFailed),
            final(self).buffer == old(self).buffer,
            final(self).ready == old(self).ready,
            final(self).requested == old(self).requested,
    {
        self.error = Some(Error::BufferAllocationFailed);
    }

    /// Record that dispatching failed at the transport level; this ends the capture.
    pub fn dispatch_failed(&mut self)
        ensures
            final(self).error == Some(Error::DispatchError),
            final(self).buffer == old(self).buffer,
            final(self).ready == old(self).ready,
            final(self).requested == old(self).requested,
    {
        self.error = Some(Error::DispatchError);
    }

    /// Decide what the driver does next, marking the copy as asked for when it says so.
    pub fn poll(&mut self) -> (r: DriverAction)
        ensures
            (*final(self), r) == old(self).spec_poll(),
    {
        if self.error.is_some() || (self.ready && self.buffer.is_some()) {
            DriverAction::Finish
        } else if self.buffer.is_some() && !self.requested {
            self.requested = true;
            DriverAction::Copy
        } else {
            DriverAction::Dispatch
        }
    }

    /// The outcome of an ended capture: its error, or its filled buffer.
    pub fn finish(self) -> (r: Result<Buffer, Error>)
        requires
            self.is_terminal(),
        ensures
            r == self.spec_finish(),
    {
        match self.error {
            Some(e) => Err(e),
            None => match self.buffer {
                Some(b) => Ok(b),
                None => Err(Error::ProtocolViolation),
            },
        }
    }
}

/// From a fresh frame: a valid buffer specification makes the driver ask for exactly one
/// copy; a ready event then ends the capture with a buffer of that geometry, and a failed
/// event in its place ends it with `CaptureFailed`.
pub proof fn lemma_capture_outcomes(format: u32, width: u32, height: u32, stride: u32)
    requires
        shm_format_known(format),
        valid_geometry(width, height, stride),
    ensures
        ({
            let specified = Frame::initial().spec_handle(FrameEvent::Buffer { format, width, height, stride });
            let (copying, action) = specified.spec_poll();
            let ready = copying.spec_handle(FrameEvent::Ready);
            let failed = copying.spec_handle(FrameEvent::Failed);
            &&& action == DriverAction::Copy
            &&& copying.spec_poll() == (copying, DriverAction::Dispatch)
            &&& ready.spec_poll().1 == DriverAction::Finish
            &&& ready.spec_finish() is Ok
            &&& ready.spec_finish()->Ok_0.spec_width() == width
            &&& ready.spec_finish()->Ok_0.spec_height() == height
            &&& ready.spec_finish()->Ok_0.spec_stride() == stride
            &&& ready.spec_finish()->Ok_0.spec_format() == format
            &&& failed.spec_poll().1 == DriverAction::Finish
            &&& failed.spec_finish() == Err::<Buffer, Error>(Error::CaptureFailed)
        }),
{
    crate::buffer::lemma_spec_new(width, height, stride, format);
}

/// A failed event ends the capture with `CaptureFailed` and no buffer, whatever state the
/// frame was in, including after a ready event.
pub proof fn lemma_failed_ends_capture(frame: Frame)
    ensures
        frame.spec_handle(FrameEvent::Failed).buffer is None,
        frame.spec_handle(FrameEvent::Failed).spec_poll().1 == DriverAction::Finish,
        frame.spec_handle(FrameEvent::Failed).spec_finish() == Err::<Buffer, Error>(Error::CaptureFailed),
{
}

/// From a fresh frame, a buffer specification with an unknown format ends the capture with
/// `InvalidFormatEnum`, and the driver never asks for a copy.
pub proof fn lemma_invalid_format_ends(format: u32, width: u32, height: u32, stride: u32)
    requires
        !shm_format_known(format),
    ensures
        ({
            let specified = Frame::initial().spec_handle(FrameEvent::Buffer { format, width, height, stride });
            &&& specified.spec_poll() == (specified, DriverAction::Finish)
            &&& !specified.requested
            &&& specified.spec_finish() == Err::<Buffer, Error>(Error::InvalidFormatEnum(format))
        }),
{
}

} // verus!
