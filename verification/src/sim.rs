//! A simulated I2C bus for conformance checking.

use vstd::prelude::*;

use crate::events::BusEvent;
use crate::events::read_data_events;
use crate::events::read_events;
use crate::events::write_data_events;
use crate::events::write_events;
use crate::events::write_read_events;
use crate::i2c::BusTrace;
use crate::i2c::Read;
use crate::i2c::Write;
use crate::i2c::WriteIter;
use crate::i2c::WriteIterRead;
use crate::i2c::WriteRead;
use crate::source::ByteSource;

verus! {

/// What the slave transmits for a read of `l` bytes when `resp` is loaded:
/// the loaded bytes first, then the idle-bus byte 0xFF once they run out.
pub open spec fn slave_reply(resp: Seq<u8>, l: nat) -> Seq<u8> {
    Seq::new(
        l,
        |i: int|
            if i < resp.len() {
                resp[i]
            } else {
                0xFFu8
            },
    )
}

/// What stays loaded after the slave transmitted `l` bytes.
pub open spec fn responses_after(resp: Seq<u8>, l: nat) -> Seq<u8> {
    if l <= resp.len() {
        resp.skip(l as int)
    } else {
        Seq::<u8>::empty()
    }
}

/// The error taxonomy of the simulated bus.
#[derive(Clone, Copy, Debug, PartialEq, Eq, Structural)]
pub enum SimError {
    /// The addressed slave did not acknowledge its address.
    AddressNack,
}

/// A simulated bus with a single slave device attached.
pub struct SimBus {
    device: u8,
    responses: Vec<u8>,
    log: Vec<BusEvent>,
}

impl SimBus {
    /// The address of the one slave present on the simulated bus.
    pub closed spec fn device_spec(&self) -> u8 {
        self.device
    }

    /// The bytes the slave will transmit on the next reads, front first.
    pub closed spec fn responses_spec(&self) -> Seq<u8> {
        self.responses@
    }

    /// Makes a bus whose one slave answers at `device`, with no reply bytes
    /// loaded and nothing on the trace yet.
    pub fn new(device: u8) -> (r: SimBus)
        requires
            device < 128,
        ensures
            r.device_spec() == device,
            r.responses_spec() == Seq::<u8>::empty(),
            r.trace() == Seq::<BusEvent>::empty(),
    {
        SimBus { device, responses: Vec::new(), log: Vec::new() }
    }

    /// Appends `bytes` to what the slave will transmit on coming reads.
    /// Nothing is driven on the bus by loading.
    pub fn load_responses(&mut self, bytes: &[u8])
        ensures
            final(self).responses_spec() == old(self).responses_spec() + bytes@,
            final(self).device_spec() == old(self).device_spec(),
            (*final(self)).trace() == (*old(self)).trace(),
    {
        self.responses.extend_from_slice(bytes);
    }

    /// The events driven on the bus so far, oldest first: what a conformance
    /// harness observes.
    pub fn events(&self) -> (r: &Vec<BusEvent>)
        ensures
            r@ == self.trace(),
    {
        &self.log
    }
}

impl Read for SimBus {
    type Error = SimError;

    /// Succeeds exactly when `address` is the attached slave's; the bytes
    /// read are the loaded responses, front first, 0xFF once exhausted. A
    /// no-acknowledge leaves an aborted transaction on the trace and touches
    /// neither the buffer nor the loaded responses.
    fn read(&mut self, address: u8, buffer: &mut Vec<u8>) -> (r: Result<(), Self::Error>)
        ensures
            r is Ok <==> address == old(self).device_spec(),
            final(self).device_spec() == old(self).device_spec(),
            r is Ok ==> final(buffer)@ == slave_reply(
                old(self).responses_spec(),
                old(buffer).len() as nat,
            ) && final(self).responses_spec() == responses_after(
                old(self).responses_spec(),
                old(buffer).len() as nat,
            ),
            r is Err ==> (*final(self)).trace() == (*old(self)).trace() + seq![
                BusEvent::Start,
                BusEvent::AddrRead(address),
                BusEvent::Stop,
            ] && final(buffer)@ == old(buffer)@ && final(self).responses_spec() == old(
                self,
            ).responses_spec(),
    {
        self.log.push(BusEvent::Start);
        self.log.push(BusEvent::AddrRead(address));
        if address != self.device {
            self.log.push(BusEvent::Stop);
            proof {
                let fin = self.log@;
                let pre = old(self).log@;
                assert(fin =~= pre + seq![
                    BusEvent::Start,
                    BusEvent::AddrRead(address),
                    BusEvent::Stop,
                ]);
                assert(fin.subrange(0, pre.len() as int) =~= pre);
            }
            return Err(SimError::AddressNack);
        }
        let l = buffer.len();
        let ghost pre = self.log@;
        let ghost reply = slave_reply(self.responses@, l as nat);
        let ghost loaded = self.responses@;
        let mut i: usize = 0;
        while i < l
            invariant
                i <= l,
                buffer.len() == l,
                self.device == old(self).device,
                reply == slave_reply(loaded, l as nat),
                forall|j: int| 0 <= j < i ==> buffer@[j] == reply[j],
                self.responses@ == responses_after(loaded, i as nat),
                self.log@ == pre + Seq::new(
                    i as nat,
                    |j: int|
                        if j == l - 1 {
                            BusEvent::ReadByteNack(reply[j])
                        } else {
                            BusEvent::ReadByteAck(reply[j])
                        },
                ),
            decreases l - i,
        {
            let b: u8 = if self.responses.len() > 0 {
                self.responses.remove(0)
            } else {
                0xFFu8
            };
            proof {
                assert(b == reply[i as int]);
                assert(self.responses@ =~= responses_after(loaded, (i + 1) as nat));
            }
            buffer[i] = b;
            if i + 1 == l {
                self.log.push(BusEvent::ReadByteNack(b));
            } else {
                self.log.push(BusEvent::ReadByteAck(b));
            }
            proof {
                assert(self.log@ =~= pre + Seq::new(
                    (i + 1) as nat,
                    |j: int|
                        if j == l - 1 {
                            BusEvent::ReadByteNack(reply[j])
                        } else {
                            BusEvent::ReadByteAck(reply[j])
                        },
                ));
            }
            i = i + 1;
        }
        self.log.push(BusEvent::Stop);
        proof {
            assert(buffer@ =~= reply);
            assert(Seq::new(
                l as nat,
                |j: int|
                    if j == l - 1 {
                        BusEvent::ReadByteNack(reply[j])
                    } else {
                        BusEvent::ReadByteAck(reply[j])
                    },
            ) =~= read_data_events(reply));
            let fin = self.log@;
            let entry = old(self).log@;
            assert(fin =~= entry + read_events(address, buffer@));
            assert(fin.subrange(0, entry.len() as int) =~= entry);
        }
        Ok(())
    }
}

impl SimBus {
    /// Sends `bytes` to the slave at `addr`, as [`Write::write`] does.
    /// Succeeds exactly when `addr` is the attached slave's, which then
    /// acknowledges every byte. A no-acknowledge leaves an aborted
    /// transaction on the trace. Loaded responses are never consumed by a
    /// write.
    pub fn write_bytes(&mut self, addr: u8, bytes: &[u8]) -> (r: Result<(), SimError>)
        requires
            addr < 128,
        ensures
            (*old(self)).trace().is_prefix_of((*final(self)).trace()),
            r is Ok ==> (*final(self)).trace() == (*old(self)).trace() + write_events(
                addr,
                bytes@,
            ),
            r is Ok <==> addr == old(self).device_spec(),
            final(self).device_spec() == old(self).device_spec(),
            final(self).responses_spec() == old(self).responses_spec(),
            r is Err ==> (*final(self)).trace() == (*old(self)).trace() + seq![
                BusEvent::Start,
                BusEvent::AddrWrite(addr),
                BusEvent::Stop,
            ],
    {
        self.log.push(BusEvent::Start);
        self.log.push(BusEvent::AddrWrite(addr));
        if addr != self.device {
            self.log.push(BusEvent::Stop);
            proof {
                let fin = self.log@;
                let pre = old(self).log@;
                assert(fin =~= pre + seq![
                    BusEvent::Start,
                    BusEvent::AddrWrite(addr),
                    BusEvent::Stop,
                ]);
                assert(fin.subrange(0, pre.len() as int) =~= pre);
            }
            return Err(SimError::AddressNack);
        }
        let ghost pre = self.log@;
        let l = bytes.len();
        let mut i: usize = 0;
        while i < l
            invariant
                i <= l,
                l == bytes@.len(),
                self.device == old(self).device,
                self.responses@ == old(self).responses@,
                self.log@ == pre + write_data_events(bytes@.take(i as int)),
            decreases l - i,
        {
            let b: u8 = bytes[i];
            self.log.push(BusEvent::WriteByte(b));
            proof {
                assert(self.log@ =~= pre + write_data_events(bytes@.take(i + 1)));
            }
            i = i + 1;
        }
        self.log.push(BusEvent::Stop);
        proof {
            assert(bytes@.take(l as int) =~= bytes@);
            let fin = self.log@;
            let entry = old(self).log@;
            assert(fin =~= entry + write_events(addr, bytes@));
            assert(fin.subrange(0, entry.len() as int) =~= entry);
        }
        Ok(())
    }
}

impl Write for SimBus {
    type Error = SimError;

    /// Forwards to [`SimBus::write_bytes`], which also pins down when the
    /// call succeeds.
    fn write(&mut self, addr: u8, bytes: &[u8]) -> (r: Result<(), Self::Error>) {
        self.write_bytes(addr, bytes)
    }
}

impl WriteRead for SimBus {
    type Error = SimError;

    /// Succeeds exactly when `address` is the attached slave's; the write
    /// phase and the read phase then form one transaction joined by a
    /// repeated start, and the bytes read are the loaded responses, front
    /// first, 0xFF once exhausted. A no-acknowledge leaves an aborted
    /// transaction on the trace and touches neither the buffer nor the
    /// loaded responses.
    fn write_read(&mut self, address: u8, bytes: &[u8], buffer: &mut Vec<u8>) -> (r: Result<
        (),
        Self::Error,
    >)
        ensures
            r is Ok <==> address == old(self).device_spec(),
            final(self).device_spec() == old(self).device_spec(),
            r is Ok ==> final(buffer)@ == slave_reply(
                old(self).responses_spec(),
                old(buffer).len() as nat,
            ) && final(self).responses_spec() == responses_after(
                old(self).responses_spec(),
                old(buffer).len() as nat,
            ),
            r is Err ==> (*final(self)).trace() == (*old(self)).trace() + seq![
                BusEvent::Start,
                BusEvent::AddrWrite(address),
                BusEvent::Stop,
            ] && final(buffer)@ == old(buffer)@ && final(self).responses_spec() == old(
                self,
            ).responses_spec(),
    {
        self.log.push(BusEvent::Start);
        self.log.push(BusEvent::AddrWrite(address));
        if address != self.device {
            self.log.push(BusEvent::Stop);
            proof {
                let fin = self.log@;
                let pre = old(self).log@;
                assert(fin =~= pre + seq![
                    BusEvent::Start,
                    BusEvent::AddrWrite(address),
                    BusEvent::Stop,
                ]);
                assert(fin.subrange(0, pre.len() as int) =~= pre);
            }
            return Err(SimError::AddressNack);
        }
        let ghost pre_out = self.log@;
        let m = bytes.len();
        let mut i: usize = 0;
        while i < m
            invariant
                i <= m,
                m == bytes@.len(),
                self.device == old(self).device,
                self.responses@ == old(self).responses@,
                self.log@ == pre_out + write_data_events(bytes@.take(i as int)),
            decreases m - i,
        {
            let b: u8 = bytes[i];
            self.log.push(BusEvent::WriteByte(b));
            proof {
                assert(self.log@ =~= pre_out + write_data_events(bytes@.take(i + 1)));
            }
            i = i + 1;
        }
        self.log.push(BusEvent::RepeatedStart);
        self.log.push(BusEvent::AddrRead(address));
        proof {
            assert(bytes@.take(m as int) =~= bytes@);
        }
        let l = buffer.len();
        let ghost pre_in = self.log@;
        let ghost reply = slave_reply(self.responses@, l as nat);
        let ghost loaded = self.responses@;
        let mut k: usize = 0;
        while k < l
            invariant
                k <= l,
                buffer.len() == l,
                self.device == old(self).device,
                reply == slave_reply(loaded, l as nat),
                forall|j: int| 0 <= j < k ==> buffer@[j] == reply[j],
                self.responses@ == responses_after(loaded, k as nat),
                self.log@ == pre_in + Seq::new(
                    k as nat,
                    |j: int|
                        if j == l - 1 {
                            BusEvent::ReadByteNack(reply[j])
                        } else {
                            BusEvent::ReadByteAck(reply[j])
                        },
                ),
            decreases l - k,
        {
            let b: u8 = if self.responses.len() > 0 {
                self.responses.remove(0)
            } else {
                0xFFu8
            };
            proof {
                assert(b == reply[k as int]);
                assert(self.responses@ =~= responses_after(loaded, (k + 1) as nat));
            }
            buffer[k] = b;
            if k + 1 == l {
                self.log.push(BusEvent::ReadByteNack(b));
            } else {
                self.log.push(BusEvent::ReadByteAck(b));
            }
            proof {
                assert(self.log@ =~= pre_in + Seq::new(
                    (k + 1) as nat,
                    |j: int|
                        if j == l - 1 {
                            BusEvent::ReadByteNack(reply[j])
                        } else {
                            BusEvent::ReadByteAck(reply[j])
                        },
                ));
            }
            k = k + 1;
        }
        self.log.push(BusEvent::Stop);
        proof {
            assert(buffer@ =~= reply);
            assert(Seq::new(
                l as nat,
                |j: int|
                    if j == l - 1 {
                        BusEvent::ReadByteNack(reply[j])
                    } else {
                        BusEvent::ReadByteAck(reply[j])
                    },
            ) =~= read_data_events(reply));
            let fin = self.log@;
            let entry = old(self).log@;
            assert(fin =~= entry + write_read_events(address, bytes@, buffer@));
            assert(fin.subrange(0, entry.len() as int) =~= entry);
        }
        Ok(())
    }
}

impl SimBus {
    /// Sends the bytes yielded by `bytes` to the slave at `addr`, as
    /// [`WriteIter::write`] does: the same bus behavior as the buffered
    /// write, with the outgoing bytes drawn from the source one at a time.
    /// Succeeds exactly when `addr` is the attached slave's, and then drains
    /// the source. A no-acknowledge aborts before any byte is drawn. Loaded
    /// responses are never consumed by a write.
    pub fn write_from<B: ByteSource>(&mut self, addr: u8, bytes: B) -> (r: Result<(), SimError>)
        requires
            addr < 128,
        ensures
            (*old(self)).trace().is_prefix_of((*final(self)).trace()),
            r is Ok ==> (*final(self)).trace() == (*old(self)).trace() + write_events(
                addr,
                bytes.pending(),
            ),
            r is Ok <==> addr == old(self).device_spec(),
            final(self).device_spec() == old(self).device_spec(),
            final(self).responses_spec() == old(self).responses_spec(),
            r is Err ==> (*final(self)).trace() == (*old(self)).trace() + seq![
                BusEvent::Start,
                BusEvent::AddrWrite(addr),
                BusEvent::Stop,
            ],
    {
        self.log.push(BusEvent::Start);
        self.log.push(BusEvent::AddrWrite(addr));
        if addr != self.device {
            self.log.push(BusEvent::Stop);
            proof {
                let fin = self.log@;
                let pre = old(self).log@;
                assert(fin =~= pre + seq![
                    BusEvent::Start,
                    BusEvent::AddrWrite(addr),
                    BusEvent::Stop,
                ]);
                assert(fin.subrange(0, pre.len() as int) =~= pre);
            }
            return Err(SimError::AddressNack);
        }
        let ghost pre = self.log@;
        let ghost total = bytes.pending();
        let mut src = bytes;
        let ghost mut done: int = 0;
        loop
            invariant
                0 <= done <= total.len(),
                src.pending() == total.skip(done),
                self.device == old(self).device,
                self.responses@ == old(self).responses@,
                self.log@ == pre + write_data_events(total.take(done)),
            ensures
                self.device == old(self).device,
                self.responses@ == old(self).responses@,
                self.log@ == pre + write_data_events(total),
            decreases total.len() - done,
        {
            match src.next_byte() {
                Some(b) => {
                    proof {
                        assert(total.skip(done).len() > 0);
                        assert(b == total.skip(done)[0]);
                        assert(b == total[done]);
                    }
                    self.log.push(BusEvent::WriteByte(b));
                    proof {
                        assert(src.pending() =~= total.skip(done + 1));
                        assert(self.log@ =~= pre + write_data_events(total.take(done + 1)));
                        done = done + 1;
                    }
                },
                None => {
                    proof {
                        assert(total.skip(done).len() == 0);
                        assert(done == total.len());
                        assert(total.take(done) =~= total);
                    }
                    break ;
                },
            }
        }
        self.log.push(BusEvent::Stop);
        proof {
            let fin = self.log@;
            let entry = old(self).log@;
            assert(fin =~= entry + write_events(addr, total));
            assert(fin.subrange(0, entry.len() as int) =~= entry);
        }
        Ok(())
    }
}

impl WriteIter for SimBus {
    type Error = SimError;

    /// Forwards to [`SimBus::write_from`], which also pins down when the
    /// call succeeds.
    fn write<B: ByteSource>(&mut self, addr: u8, bytes: B) -> (r: Result<(), Self::Error>) {
        self.write_from(addr, bytes)
    }
}

impl WriteIterRead for SimBus {
    type Error = SimError;

    /// Same bus behavior as the buffered write-then-read, with the outgoing
    /// bytes drawn from `bytes` one at a time; success drains the source. A
    /// no-acknowledge aborts before any byte is drawn and touches neither
    /// the buffer nor the loaded responses.
    fn write_iter_read<B: ByteSource>(
        &mut self,
        address: u8,
        bytes: B,
        buffer: &mut Vec<u8>,
    ) -> (r: Result<(), Self::Error>)
        ensures
            r is Ok <==> address == old(self).device_spec(),
            final(self).device_spec() == old(self).device_spec(),
            r is Ok ==> final(buffer)@ == slave_reply(
                old(self).responses_spec(),
                old(buffer).len() as nat,
            ) && final(self).responses_spec() == responses_after(
                old(self).responses_spec(),
                old(buffer).len() as nat,
            ),
            r is Err ==> (*final(self)).trace() == (*old(self)).trace() + seq![
                BusEvent::Start,
                BusEvent::AddrWrite(address),
                BusEvent::Stop,
            ] && final(buffer)@ == old(buffer)@ && final(self).responses_spec() == old(
                self,
            ).responses_spec(),
    {
        self.log.push(BusEvent::Start);
        self.log.push(BusEvent::AddrWrite(address));
        if address != self.device {
            self.log.push(BusEvent::Stop);
            proof {
                let fin = self.log@;
                let pre = old(self).log@;
                assert(fin =~= pre + seq![
                    BusEvent::Start,
                    BusEvent::AddrWrite(address),
                    BusEvent::Stop,
                ]);
                assert(fin.subrange(0, pre.len() as int) =~= pre);
            }
            return Err(SimError::AddressNack);
        }
        let ghost pre_out = self.log@;
        let ghost total = bytes.pending();
        let mut src = bytes;
        let ghost mut done: int = 0;
        loop
            invariant
                0 <= done <= total.len(),
                src.pending() == total.skip(done),
                self.device == old(self).device,
                self.responses@ == old(self).responses@,
                self.log@ == pre_out + write_data_events(total.take(done)),
            ensures
                self.device == old(self).device,
                self.responses@ == old(self).responses@,
                self.log@ == pre_out + write_data_events(total),
            decreases total.len() - done,
        {
            match src.next_byte() {
                Some(b) => {
                    proof {
                        assert(total.skip(done).len() > 0);
                        assert(b == total.skip(done)[0]);
                        assert(b == total[done]);
                    }
                    self.log.push(BusEvent::WriteByte(b));
                    proof {
                        assert(src.pending() =~= total.skip(done + 1));
                        assert(self.log@ =~= pre_out + write_data_events(total.take(done + 1)));
                        done = done + 1;
                    }
                },
                None => {
                    proof {
                        assert(total.skip(done).len() == 0);
                        assert(done == total.len());
                        assert(total.take(done) =~= total);
                    }
                    break ;
                },
            }
        }
        self.log.push(BusEvent::RepeatedStart);
        self.log.push(BusEvent::AddrRead(address));
        let l = buffer.len();
        let ghost pre_in = self.log@;
        let ghost reply = slave_reply(self.responses@, l as nat);
        let ghost loaded = self.responses@;
        let mut k: usize = 0;
        while k < l
            invariant
                k <= l,
                buffer.len() == l,
                self.device == old(self).device,
                reply == slave_reply(loaded, l as nat),
                forall|j: int| 0 <= j < k ==> buffer@[j] == reply[j],
                self.responses@ == responses_after(loaded, k as nat),
                self.log@ == pre_in + Seq::new(
                    k as nat,
                    |j: int|
                        if j == l - 1 {
                            BusEvent::ReadByteNack(reply[j])
                        } else {
                            BusEvent::ReadByteAck(reply[j])
                        },
                ),
            decreases l - k,
        {
            let b: u8 = if self.responses.len() > 0 {
                self.responses.remove(0)
            } else {
                0xFFu8
            };
            proof {
                assert(b == reply[k as int]);
                assert(self.responses@ =~= responses_after(loaded, (k + 1) as nat));
            }
            buffer[k] = b;
            if k + 1 == l {
                self.log.push(BusEvent::ReadByteNack(b));
            } else {
                self.log.push(BusEvent::ReadByteAck(b));
            }
            proof {
                assert(self.log@ =~= pre_in + Seq::new(
                    (k + 1) as nat,
                    |j: int|
                        if j == l - 1 {
                            BusEvent::ReadByteNack(reply[j])
                        } else {
                            BusEvent::ReadByteAck(reply[j])
                        },
                ));
            }
            k = k + 1;
        }
        self.log.push(BusEvent::Stop);
        proof {
            assert(buffer@ =~= reply);
            assert(Seq::new(
                l as nat,
                |j: int|
                    if j == l - 1 {
                        BusEvent::ReadByteNack(reply[j])
                    } else {
                        BusEvent::ReadByteAck(reply[j])
                    },
            ) =~= read_data_events(reply));
            let fin = self.log@;
            let entry = old(self).log@;
            assert(fin =~= entry + write_read_events(address, total, buffer@));
            assert(fin.subrange(0, entry.len() as int) =~= entry);
        }
        Ok(())
    }
}

impl BusTrace for SimBus {
    /// Everything driven on the simulated bus so far, oldest event first.
    closed spec fn trace(&self) -> Seq<BusEvent> {
        self.log@
    }
}

} // verus!
