//! The buffered frame extractor: a byte source, the bytes received from it
//! that no frame has taken yet, and the decisions of the read loop.
//!
//! The loop itself performs I/O, so it stands with its caller. Each turn
//! calls [`FramedListener::parse`]; when that finds no frame, the caller
//! reads from the port once and hands the result to
//! [`FramedListener::on_read`], which says whether to go on.

use crate::buffer::{buffer_bytes, buffer_extend, buffer_len, empty_buffer};
use crate::protocol::{DecodeError, DecodeFault, Frame, FrameCheckError};
use bytes::BytesMut;
use std::marker::PhantomData;
use vstd::prelude::*;

verus! {

/// A failure of the byte source itself.
#[derive(Debug, Clone, Copy, PartialEq, Eq, Structural)]
pub enum DeviceError {
    /// The source stopped while part of a frame was buffered.
    ConnectionLost,
}

/// Why the extractor produced no frame.
#[derive(Debug, PartialEq)]
pub enum ListenError {
    Check(FrameCheckError),
    Decode(DecodeError),
    Device(DeviceError),
}

/// What one read from the byte source brought.
pub enum ReadEvent {
    /// The bytes read; none when the source is closed.
    Bytes(Vec<u8>),
    /// The read waited its time and brought nothing; the source is still open.
    TimedOut,
}

/// What the read loop does after a read.
#[derive(Debug, Clone, Copy, PartialEq, Eq, Structural)]
pub enum ReadStep {
    /// Look for a frame again.
    Retry,
    /// The stream ended cleanly: no frame, and nothing left buffered.
    Ended,
}

/// The outcome of the extractor, as a value of the specifications.
pub enum Outcome<F> {
    Frame(F),
    /// No frame yet: more bytes are needed.
    Waiting,
    CheckFailed(FrameCheckError),
    DecodeFailed(DecodeFault),
    Ended,
    Lost,
}

/// What one read does to the buffered bytes, and what the loop does next.
pub open spec fn read_step(buffered: Seq<u8>, event: ReadEvent) -> (
    Seq<u8>,
    Result<ReadStep, DeviceError>,
) {
    match event {
        ReadEvent::TimedOut => (buffered, Ok(ReadStep::Retry)),
        ReadEvent::Bytes(v) => if v@.len() > 0 {
            (buffered + v@, Ok(ReadStep::Retry))
        } else if buffered.len() == 0 {
            (buffered, Ok(ReadStep::Ended))
        } else {
            (buffered, Err(DeviceError::ConnectionLost))
        },
    }
}

/// The outcome of one look for a frame, given what `check` returned.
pub open spec fn parse_outcome<F: Frame>(c: Result<Seq<u8>, FrameCheckError>) -> Outcome<F> {
    match c {
        Ok(p) => match F::parse_spec(p) {
            Ok(f) => Outcome::Frame(f),
            Err(d) => Outcome::DecodeFailed(d),
        },
        Err(FrameCheckError::Incomplete) => Outcome::Waiting,
        Err(e) => Outcome::CheckFailed(e),
    }
}

/// The outcome that a result of [`FramedListener::parse`] stands for.
pub open spec fn parse_result_outcome<F>(r: Result<Option<F>, ListenError>) -> Outcome<F> {
    match r {
        Ok(Some(f)) => Outcome::Frame(f),
        Ok(None) => Outcome::Waiting,
        Err(ListenError::Check(e)) => Outcome::CheckFailed(e),
        Err(ListenError::Decode(e)) => Outcome::DecodeFailed(e.fault()),
        Err(ListenError::Device(_)) => Outcome::Lost,
    }
}

/// The read loop run from a buffer holding `buffered` over the reads
/// `events`: look for a frame, and when there is none, take the next read.
/// `Waiting` when the reads run out first.
pub open spec fn listen<F: Frame>(buffered: Seq<u8>, events: Seq<ReadEvent>) -> Outcome<F>
    decreases events.len(),
{
    let (c, after) = F::check_spec(buffered);
    let o = parse_outcome::<F>(c);
    if !(o is Waiting) {
        o
    } else if events.len() == 0 {
        Outcome::Waiting
    } else {
        let (next, step) = read_step(after, events[0]);
        match step {
            Ok(ReadStep::Retry) => listen::<F>(next, events.drop_first()),
            Ok(ReadStep::Ended) => Outcome::Ended,
            Err(_) => Outcome::Lost,
        }
    }
}

/// Reads frames of the grammar `F` from a byte source `P`.
pub struct FramedListener<P, F> {
    port: P,
    buffer: BytesMut,
    frame_type: PhantomData<F>,
}

impl<P, F: Frame> FramedListener<P, F> {
    /// The bytes received and not yet taken by a frame.
    pub closed spec fn buffered(&self) -> Seq<u8> {
        buffer_bytes(self.buffer)
    }

    pub closed spec fn port_view(&self) -> P {
        self.port
    }

    /// A listener on `port` with nothing buffered.
    pub fn new(port: P) -> (r: FramedListener<P, F>)
        ensures
            r.buffered() == Seq::<u8>::empty(),
            r.port_view() == port,
    {
        FramedListener { port, buffer: empty_buffer(256), frame_type: PhantomData }
    }

    /// How many bytes are buffered.
    pub fn buffered_len(&self) -> (r: usize)
        ensures
            r == self.buffered().len(),
    {
        buffer_len(&self.buffer)
    }

    /// The byte source, to read from.
    pub fn port_mut(&mut self) -> (p: &mut P)
        ensures
            *p == old(self).port_view(),
            final(self).port_view() == *final(p),
            final(self).buffered() == old(self).buffered(),
    {
        &mut self.port
    }

    /// Looks for a complete frame in the buffer and decodes it: `Ok(None)`
    /// when more bytes are needed.
    pub fn parse(&mut self) -> (r: Result<Option<F>, ListenError>)
        ensures
            final(self).buffered() == F::check_spec(old(self).buffered()).1,
            final(self).port_view() == old(self).port_view(),
            parse_result_outcome(r) == parse_outcome::<F>(F::check_spec(old(self).buffered()).0),
    {
        match F::check(&mut self.buffer) {
            Ok(frame_data) => match F::parse(frame_data) {
                Ok(frame) => Ok(Some(frame)),
                Err(e) => Err(ListenError::Decode(e)),
            },
            Err(FrameCheckError::Incomplete) => Ok(None),
            Err(e) => Err(ListenError::Check(e)),
        }
    }

    /// Takes in what one read brought: bytes are buffered and the loop goes
    /// on, as it does after a timeout; a closed source ends the stream when
    /// nothing is buffered, and is a lost connection otherwise.
    pub fn on_read(&mut self, event: ReadEvent) -> (r: Result<ReadStep, DeviceError>)
        requires
            event matches ReadEvent::Bytes(v) ==> (v@.len() > 0 ==> old(self).buffered().len()
                + v@.len() <= isize::MAX),
        ensures
            (final(self).buffered(), r) == read_step(old(self).buffered(), event),
            final(self).port_view() == old(self).port_view(),
    {
        match event {
            ReadEvent::TimedOut => Ok(ReadStep::Retry),
            ReadEvent::Bytes(v) => {
                if v.len() > 0 {
                    buffer_extend(&mut self.buffer, v.as_slice());
                    Ok(ReadStep::Retry)
                } else if buffer_len(&self.buffer) == 0 {
                    Ok(ReadStep::Ended)
                } else {
                    Err(DeviceError::ConnectionLost)
                }
            },
        }
    }
}

} // verus!
