//! A ghost model of what a conforming I2C bus master puts on the wire.
//!
//! One bus transaction is a sequence of [`BusEvent`]s. The spec functions
//! here give, for each blocking operation, the exact event sequence that a
//! successful call must produce: a read transaction, a write transaction,
//! and the atomic write-then-read transaction joined by a repeated start.
//! Capability contracts and the simulated bus both speak in these terms.

use vstd::prelude::*;

verus! {

/// One observable condition or byte transfer on the I2C bus.
///
/// Acknowledge bits are folded into the byte events: a transmitted byte
/// carries the slave's acknowledge, and a received byte records whether the
/// master answered with an acknowledge (all bytes but the last) or a
/// no-acknowledge (the final byte of a read phase).
#[derive(Clone, Copy, Debug, PartialEq, Eq, Structural)]
pub enum BusEvent {
    /// Start condition.
    Start,
    /// Repeated start condition (no stop between two phases).
    RepeatedStart,
    /// Slave address followed by the read direction bit, slave-acknowledged.
    AddrRead(u8),
    /// Slave address followed by the write direction bit, slave-acknowledged.
    AddrWrite(u8),
    /// One outgoing data byte, acknowledged by the slave.
    WriteByte(u8),
    /// One incoming data byte, acknowledged by the master.
    ReadByteAck(u8),
    /// One incoming data byte, answered with the master's no-acknowledge;
    /// only the final byte of a read phase carries this.
    ReadByteNack(u8),
    /// Stop condition.
    Stop,
}

/// The data phase of a read: each received byte in order, the master
/// acknowledging every byte but the last and no-acknowledging the last.
pub open spec fn read_data_events(data: Seq<u8>) -> Seq<BusEvent> {
    Seq::new(
        data.len(),
        |i: int|
            if i == data.len() - 1 {
                BusEvent::ReadByteNack(data[i])
            } else {
                BusEvent::ReadByteAck(data[i])
            },
    )
}

/// The data phase of a write: each outgoing byte in order, each acknowledged
/// by the slave.
pub open spec fn write_data_events(bytes: Seq<u8>) -> Seq<BusEvent> {
    Seq::new(bytes.len(), |i: int| BusEvent::WriteByte(bytes[i]))
}

/// The full transaction of a successful blocking read of `data` from the
/// slave at `addr`: start, address for reading, data phase, stop.
pub open spec fn read_events(addr: u8, data: Seq<u8>) -> Seq<BusEvent> {
    seq![BusEvent::Start, BusEvent::AddrRead(addr)] + read_data_events(data)
        + seq![BusEvent::Stop]
}

/// The full transaction of a successful blocking write of `bytes` to the
/// slave at `addr`: start, address for writing, data phase, stop.
pub open spec fn write_events(addr: u8, bytes: Seq<u8>) -> Seq<BusEvent> {
    seq![BusEvent::Start, BusEvent::AddrWrite(addr)] + write_data_events(bytes)
        + seq![BusEvent::Stop]
}

/// The full transaction of a successful atomic write-then-read: start,
/// address for writing, outgoing data phase, repeated start (no stop between
/// the phases), address for reading, incoming data phase, stop.
pub open spec fn write_read_events(addr: u8, bytes: Seq<u8>, data: Seq<u8>) -> Seq<BusEvent> {
    seq![BusEvent::Start, BusEvent::AddrWrite(addr)] + write_data_events(bytes)
        + seq![BusEvent::RepeatedStart, BusEvent::AddrRead(addr)] + read_data_events(data)
        + seq![BusEvent::Stop]
}

/// How many stop conditions a trace holds.
pub open spec fn stop_count(t: Seq<BusEvent>) -> nat
    decreases t.len(),
{
    if t.len() == 0 {
        0
    } else {
        stop_count(t.drop_last()) + (if t.last() is Stop {
            1nat
        } else {
            0nat
        })
    }
}

/// How many repeated start conditions a trace holds.
pub open spec fn repeated_start_count(t: Seq<BusEvent>) -> nat
    decreases t.len(),
{
    if t.len() == 0 {
        0
    } else {
        repeated_start_count(t.drop_last()) + (if t.last() is RepeatedStart {
            1nat
        } else {
            0nat
        })
    }
}

/// Counting stop conditions distributes over concatenation.
pub proof fn lemma_stop_count_add(a: Seq<BusEvent>, b: Seq<BusEvent>)
    ensures
        stop_count(a + b) == stop_count(a) + stop_count(b),
    decreases b.len(),
{
    if b.len() == 0 {
        assert(a + b =~= a);
    } else {
        lemma_stop_count_add(a, b.drop_last());
        assert((a + b).drop_last() =~= a + b.drop_last());
        assert((a + b).last() == b.last());
    }
}

/// Counting repeated starts distributes over concatenation.
pub proof fn lemma_repeated_start_count_add(a: Seq<BusEvent>, b: Seq<BusEvent>)
    ensures
        repeated_start_count(a + b) == repeated_start_count(a) + repeated_start_count(b),
    decreases b.len(),
{
    if b.len() == 0 {
        assert(a + b =~= a);
    } else {
        lemma_repeated_start_count_add(a, b.drop_last());
        assert((a + b).drop_last() =~= a + b.drop_last());
        assert((a + b).last() == b.last());
    }
}

/// The counts of a one-event trace follow from the event.
pub proof fn lemma_counts_singleton(e: BusEvent)
    ensures
        stop_count(seq![e]) == (if e is Stop {
            1nat
        } else {
            0nat
        }),
        repeated_start_count(seq![e]) == (if e is RepeatedStart {
            1nat
        } else {
            0nat
        }),
{
    assert(seq![e].drop_last() =~= Seq::<BusEvent>::empty());
    assert(stop_count(Seq::<BusEvent>::empty()) == 0);
    assert(repeated_start_count(Seq::<BusEvent>::empty()) == 0);
    assert(seq![e].last() == e);
}

/// The counts of a two-event trace follow from the events.
pub proof fn lemma_counts_pair(a: BusEvent, b: BusEvent)
    ensures
        stop_count(seq![a, b]) == stop_count(seq![a]) + stop_count(seq![b]),
        repeated_start_count(seq![a, b]) == repeated_start_count(seq![a])
            + repeated_start_count(seq![b]),
{
    lemma_stop_count_add(seq![a], seq![b]);
    lemma_repeated_start_count_add(seq![a], seq![b]);
    assert(seq![a] + seq![b] =~= seq![a, b]);
}

/// Atomicity of write-then-read: the single transaction carries exactly one
/// stop condition, standing as its last event (so no stop separates the
/// write phase from the read phase), and exactly one repeated start; whereas
/// a write followed by a separate read carries two stop conditions and no
/// repeated start. The two shapes are observably different on the bus.
pub proof fn lemma_write_read_atomic(addr: u8, bytes: Seq<u8>, data: Seq<u8>)
    ensures
        stop_count(write_read_events(addr, bytes, data)) == 1,
        write_read_events(addr, bytes, data).last() == BusEvent::Stop,
        forall|i: int|
            0 <= i < write_read_events(addr, bytes, data).len() - 1
                ==> write_read_events(addr, bytes, data)[i] != BusEvent::Stop,
        repeated_start_count(write_read_events(addr, bytes, data)) == 1,
        stop_count(write_events(addr, bytes) + read_events(addr, data)) == 2,
        repeated_start_count(write_events(addr, bytes) + read_events(addr, data)) == 0,
{
    let head = seq![BusEvent::Start, BusEvent::AddrWrite(addr)];
    let out = write_data_events(bytes);
    let mid = seq![BusEvent::RepeatedStart, BusEvent::AddrRead(addr)];
    let inc = read_data_events(data);
    let tail = seq![BusEvent::Stop];
    let wr = write_read_events(addr, bytes, data);

    lemma_data_events_no_framing(out);
    lemma_data_events_no_framing(inc);

    lemma_stop_count_add(head, out);
    lemma_stop_count_add(head + out, mid);
    lemma_stop_count_add(head + out + mid, inc);
    lemma_stop_count_add(head + out + mid + inc, tail);
    lemma_repeated_start_count_add(head, out);
    lemma_repeated_start_count_add(head + out, mid);
    lemma_repeated_start_count_add(head + out + mid, inc);
    lemma_repeated_start_count_add(head + out + mid + inc, tail);
    lemma_counts_singleton(BusEvent::Start);
    lemma_counts_singleton(BusEvent::AddrWrite(addr));
    lemma_counts_singleton(BusEvent::AddrRead(addr));
    lemma_counts_singleton(BusEvent::RepeatedStart);
    lemma_counts_singleton(BusEvent::Stop);
    lemma_counts_pair(BusEvent::Start, BusEvent::AddrWrite(addr));
    lemma_counts_pair(BusEvent::RepeatedStart, BusEvent::AddrRead(addr));
    lemma_counts_pair(BusEvent::Start, BusEvent::AddrRead(addr));

    assert(wr.last() == BusEvent::Stop);
    assert forall|i: int| 0 <= i < wr.len() - 1 implies wr[i] != BusEvent::Stop by {
        let m = bytes.len() as int;
        let l = data.len() as int;
        if i < 2 {
        } else if i < 2 + m {
            assert(wr[i] == out[i - 2]);
        } else if i < 4 + m {
            assert(wr[i] == mid[i - 2 - m]);
        } else {
            assert(wr[i] == inc[i - 4 - m]);
        }
    }

    let w = write_events(addr, bytes);
    let r = read_events(addr, data);
    lemma_stop_count_add(seq![BusEvent::Start, BusEvent::AddrWrite(addr)] + out, tail);
    lemma_stop_count_add(seq![BusEvent::Start, BusEvent::AddrWrite(addr)], out);
    lemma_stop_count_add(seq![BusEvent::Start, BusEvent::AddrRead(addr)] + inc, tail);
    lemma_stop_count_add(seq![BusEvent::Start, BusEvent::AddrRead(addr)], inc);
    lemma_stop_count_add(w, r);
    lemma_repeated_start_count_add(seq![BusEvent::Start, BusEvent::AddrWrite(addr)] + out, tail);
    lemma_repeated_start_count_add(seq![BusEvent::Start, BusEvent::AddrWrite(addr)], out);
    lemma_repeated_start_count_add(seq![BusEvent::Start, BusEvent::AddrRead(addr)] + inc, tail);
    lemma_repeated_start_count_add(seq![BusEvent::Start, BusEvent::AddrRead(addr)], inc);
    lemma_repeated_start_count_add(w, r);
}

/// A lazy source and a buffer holding the same bytes promise identical bus
/// events, for a plain write and for a write-then-read alike: the two ways
/// of supplying the outgoing sequence differ only in how the bytes arrive,
/// never in what goes on the wire.
pub proof fn lemma_lazy_matches_buffered(
    addr: u8,
    lazy: Seq<u8>,
    buffered: Seq<u8>,
    data: Seq<u8>,
)
    requires
        lazy == buffered,
    ensures
        write_events(addr, lazy) == write_events(addr, buffered),
        write_read_events(addr, lazy, data) == write_read_events(addr, buffered, data),
{
}

/// Zero-length boundary: a read of no bytes and a write of no bytes are
/// still whole transactions — start, address and stop occur, with no data
/// phase in between.
pub proof fn lemma_zero_length_transactions(addr: u8)
    ensures
        read_events(addr, Seq::<u8>::empty()) == seq![
            BusEvent::Start,
            BusEvent::AddrRead(addr),
            BusEvent::Stop,
        ],
        write_events(addr, Seq::<u8>::empty()) == seq![
            BusEvent::Start,
            BusEvent::AddrWrite(addr),
            BusEvent::Stop,
        ],
{
    assert(read_events(addr, Seq::<u8>::empty()) =~= seq![
        BusEvent::Start,
        BusEvent::AddrRead(addr),
        BusEvent::Stop,
    ]);
    assert(write_events(addr, Seq::<u8>::empty()) =~= seq![
        BusEvent::Start,
        BusEvent::AddrWrite(addr),
        BusEvent::Stop,
    ]);
}

/// A trace whose events are all data bytes holds no stop and no repeated
/// start.
pub proof fn lemma_data_events_no_framing(t: Seq<BusEvent>)
    requires
        forall|i: int|
            0 <= i < t.len() ==> (t[i] is WriteByte || t[i] is ReadByteAck
                || t[i] is ReadByteNack),
    ensures
        stop_count(t) == 0,
        repeated_start_count(t) == 0,
    decreases t.len(),
{
    if t.len() > 0 {
        lemma_data_events_no_framing(t.drop_last());
    }
}

} // verus!
