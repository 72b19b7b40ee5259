//! The blocking I2C capability traits.
//!
//! Each capability is an independent trait; a device driver type may
//! implement several. Every capability extends [`BusTrace`], whose ghost
//! trace of bus events is what the method contracts are stated over: a
//! successful call appends exactly the transaction that the corresponding
//! spec function in [`crate::events`] describes, and no call ever erases
//! events already on the trace.
//!
//! An exclusive borrow of an implementor implements the same capabilities,
//! forwarding every call unchanged, so generic driver code need not care
//! whether it owns or borrows the bus handle; the forwarding impls are
//! checked against the very same contracts.

use vstd::prelude::*;

use crate::events::BusEvent;
use crate::events::read_events;
use crate::events::write_events;
use crate::events::write_read_events;
use crate::source::ByteSource;

verus! {

/// Ghost view of everything an observer of the bus has seen so far, oldest
/// event first. Implementors keep it append-only; the capability contracts
/// say how each operation extends it.
pub trait BusTrace {
    /// All bus events this handle has driven, in order.
    spec fn trace(&self) -> Seq<BusEvent>;
}

/// Blocking read capability.
pub trait Read: BusTrace {
    /// Implementation-defined error for bus-level failures.
    type Error;

    /// Reads enough bytes from the slave at `address` to fill `buffer`.
    ///
    /// On success the transaction put on the bus is exactly
    /// [`read_events`]`(address, ...)` over the bytes now in `buffer`:
    /// start, address for reading, the received bytes in order (the master
    /// acknowledging all but the last), stop. On failure the buffer contents
    /// are implementation-defined (only the length is kept), and no
    /// transaction is reported complete.
    fn read(&mut self, address: u8, buffer: &mut Vec<u8>) -> (r: Result<(), Self::Error>)
        requires
            address < 128,
        ensures
            old(self).trace().is_prefix_of(final(self).trace()),
            final(buffer).len() == old(buffer).len(),
            r is Ok ==> final(self).trace() == old(self).trace() + read_events(
                address,
                final(buffer)@,
            ),
    ;
}

/// Blocking write capability.
pub trait Write: BusTrace {
    /// Implementation-defined error for bus-level failures.
    type Error;

    /// Sends `bytes` to the slave at `addr`.
    ///
    /// On success the transaction put on the bus is exactly
    /// [`write_events`]`(addr, bytes@)`: start, address for writing, all the
    /// bytes in order (each acknowledged by the slave), stop. On failure
    /// nothing says how many bytes the slave latched.
    fn write(&mut self, addr: u8, bytes: &[u8]) -> (r: Result<(), Self::Error>)
        requires
            addr < 128,
        ensures
            old(self).trace().is_prefix_of(final(self).trace()),
            r is Ok ==> final(self).trace() == old(self).trace() + write_events(addr, bytes@),
    ;
}

/// Blocking write capability taking a lazy byte source.
///
/// Same contract as [`Write`], except that the outgoing sequence is produced
/// on demand: a successful call has drained the source fully, in order, and
/// put exactly the same transaction on the bus as a buffered write of those
/// bytes would have.
pub trait WriteIter: BusTrace {
    /// Implementation-defined error for bus-level failures.
    type Error;

    /// Sends the bytes yielded by `bytes` to the slave at `addr`.
    fn write<B: ByteSource>(&mut self, addr: u8, bytes: B) -> (r: Result<(), Self::Error>)
        requires
            addr < 128,
        ensures
            old(self).trace().is_prefix_of(final(self).trace()),
            r is Ok ==> final(self).trace() == old(self).trace() + write_events(
                addr,
                bytes.pending(),
            ),
    ;
}

/// Blocking write-then-read capability: both phases in a single transaction.
pub trait WriteRead: BusTrace {
    /// Implementation-defined error for bus-level failures.
    type Error;

    /// Sends `bytes` to the slave at `address` and then reads enough bytes
    /// to fill `buffer`, in a single transaction.
    ///
    /// On success the transaction put on the bus is exactly
    /// [`write_read_events`]`(address, bytes@, ...)` over the bytes now in
    /// `buffer`: start, address for writing, the outgoing bytes, a repeated
    /// start with no stop condition between the phases, address for reading,
    /// the received bytes (master acknowledging all but the last), stop. No
    /// other transaction can come between the two phases. On failure of
    /// either phase the buffer contents are implementation-defined, and
    /// nothing says whether already-acknowledged outgoing bytes had an
    /// effect on the slave.
    fn write_read(&mut self, address: u8, bytes: &[u8], buffer: &mut Vec<u8>) -> (r: Result<
        (),
        Self::Error,
    >)
        requires
            address < 128,
        ensures
            old(self).trace().is_prefix_of(final(self).trace()),
            final(buffer).len() == old(buffer).len(),
            r is Ok ==> final(self).trace() == old(self).trace() + write_read_events(
                address,
                bytes@,
                final(buffer)@,
            ),
    ;
}

/// Blocking write-then-read capability taking a lazy byte source.
///
/// Same contract as [`WriteRead`], with the outgoing sequence produced on
/// demand as in [`WriteIter`].
pub trait WriteIterRead: BusTrace {
    /// Implementation-defined error for bus-level failures.
    type Error;

    /// Sends the bytes yielded by `bytes` to the slave at `address` and then
    /// reads enough bytes to fill `buffer`, in a single transaction.
    fn write_iter_read<B: ByteSource>(
        &mut self,
        address: u8,
        bytes: B,
        buffer: &mut Vec<u8>,
    ) -> (r: Result<(), Self::Error>)
        requires
            address < 128,
        ensures
            old(self).trace().is_prefix_of(final(self).trace()),
            final(buffer).len() == old(buffer).len(),
            r is Ok ==> final(self).trace() == old(self).trace() + write_read_events(
                address,
                bytes.pending(),
                final(buffer)@,
            ),
    ;
}

impl<T: BusTrace> BusTrace for &mut T {
    open spec fn trace(&self) -> Seq<BusEvent> {
        (**self).trace()
    }
}

impl<T: Read> Read for &mut T {
    type Error = <T as Read>::Error;

    fn read(&mut self, address: u8, buffer: &mut Vec<u8>) -> (r: Result<(), Self::Error>) {
        (*self).read(address, buffer)
    }
}

impl<T: Write> Write for &mut T {
    type Error = <T as Write>::Error;

    fn write(&mut self, addr: u8, bytes: &[u8]) -> (r: Result<(), Self::Error>) {
        (*self).write(addr, bytes)
    }
}

impl<T: WriteIter> WriteIter for &mut T {
    type Error = <T as WriteIter>::Error;

    fn write<B: ByteSource>(&mut self, addr: u8, bytes: B) -> (r: Result<(), Self::Error>) {
        (*self).write(addr, bytes)
    }
}

impl<T: WriteRead> WriteRead for &mut T {
    type Error = <T as WriteRead>::Error;

    fn write_read(&mut self, address: u8, bytes: &[u8], buffer: &mut Vec<u8>) -> (r: Result<
        (),
        Self::Error,
    >) {
        (*self).write_read(address, bytes, buffer)
    }
}

impl<T: WriteIterRead> WriteIterRead for &mut T {
    type Error = <T as WriteIterRead>::Error;

    fn write_iter_read<B: ByteSource>(
        &mut self,
        address: u8,
        bytes: B,
        buffer: &mut Vec<u8>,
    ) -> (r: Result<(), Self::Error>) {
        (*self).write_iter_read(address, bytes, buffer)
    }
}

} // verus!
