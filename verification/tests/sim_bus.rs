use blocking_i2c::events::BusEvent;
use blocking_i2c::i2c::Read;
use blocking_i2c::i2c::Write;
use blocking_i2c::i2c::WriteIter;
use blocking_i2c::i2c::WriteIterRead;
use blocking_i2c::i2c::WriteRead;
use blocking_i2c::sim::SimBus;
use blocking_i2c::sim::SimError;
use blocking_i2c::source::ByteSource;
use blocking_i2c::source::VecSource;

#[test]
fn read_fills_buffer_in_order() {
    let mut bus = SimBus::new(0x50);
    bus.load_responses(&[1, 2, 3]);
    let mut buf: Vec<u8> = vec![0, 0, 0];
    let r = bus.read(0x50, &mut buf);
    assert!(r.is_ok());
    assert_eq!(buf, vec![1, 2, 3]);
    assert_eq!(
        bus.events(),
        &vec![
            BusEvent::Start,
            BusEvent::AddrRead(0x50),
            BusEvent::ReadByteAck(1),
            BusEvent::ReadByteAck(2),
            BusEvent::ReadByteNack(3),
            BusEvent::Stop,
        ]
    );
}

#[test]
fn read_zero_length_is_whole_transaction() {
    let mut bus = SimBus::new(0x21);
    let mut buf: Vec<u8> = vec![];
    let r = bus.read(0x21, &mut buf);
    assert!(r.is_ok());
    assert!(buf.is_empty());
    assert_eq!(
        bus.events(),
        &vec![BusEvent::Start, BusEvent::AddrRead(0x21), BusEvent::Stop]
    );
}

#[test]
fn read_pads_with_idle_byte_when_responses_run_out() {
    let mut bus = SimBus::new(0x50);
    bus.load_responses(&[7]);
    let mut buf: Vec<u8> = vec![0, 0, 0];
    let r = bus.read(0x50, &mut buf);
    assert!(r.is_ok());
    assert_eq!(buf, vec![7, 0xFF, 0xFF]);
}

#[test]
fn reads_consume_responses_in_order() {
    let mut bus = SimBus::new(0x50);
    bus.load_responses(&[1, 2, 3, 4]);
    let mut a: Vec<u8> = vec![0, 0];
    let mut b: Vec<u8> = vec![0, 0];
    assert!(bus.read(0x50, &mut a).is_ok());
    assert!(bus.read(0x50, &mut b).is_ok());
    assert_eq!(a, vec![1, 2]);
    assert_eq!(b, vec![3, 4]);
}

#[test]
fn read_wrong_address_is_nacked() {
    let mut bus = SimBus::new(0x50);
    bus.load_responses(&[9, 9]);
    let mut buf: Vec<u8> = vec![5, 6];
    let r = bus.read(0x23, &mut buf);
    assert_eq!(r, Err(SimError::AddressNack));
    assert_eq!(buf, vec![5, 6]);
    assert_eq!(
        bus.events(),
        &vec![BusEvent::Start, BusEvent::AddrRead(0x23), BusEvent::Stop]
    );
}

#[test]
fn write_transmits_all_bytes_before_stop() {
    let mut bus = SimBus::new(0x50);
    let r = Write::write(&mut bus, 0x50, &[0xDE, 0xAD]);
    assert!(r.is_ok());
    assert_eq!(
        bus.events(),
        &vec![
            BusEvent::Start,
            BusEvent::AddrWrite(0x50),
            BusEvent::WriteByte(0xDE),
            BusEvent::WriteByte(0xAD),
            BusEvent::Stop,
        ]
    );
}

#[test]
fn write_zero_length_is_whole_transaction() {
    let mut bus = SimBus::new(0x2A);
    let r = Write::write(&mut bus, 0x2A, &[]);
    assert!(r.is_ok());
    assert_eq!(
        bus.events(),
        &vec![BusEvent::Start, BusEvent::AddrWrite(0x2A), BusEvent::Stop]
    );
}

#[test]
fn write_wrong_address_is_nacked() {
    let mut bus = SimBus::new(0x50);
    let r = Write::write(&mut bus, 0x51, &[1, 2, 3]);
    assert_eq!(r, Err(SimError::AddressNack));
    assert_eq!(
        bus.events(),
        &vec![BusEvent::Start, BusEvent::AddrWrite(0x51), BusEvent::Stop]
    );
}

#[test]
fn write_read_emits_one_transaction_with_repeated_start() {
    let mut bus = SimBus::new(0x50);
    bus.load_responses(&[0x12, 0x34]);
    let mut buf: Vec<u8> = vec![0, 0];
    let r = bus.write_read(0x50, &[0xA0, 0x01], &mut buf);
    assert!(r.is_ok());
    assert_eq!(buf, vec![0x12, 0x34]);
    let events = bus.events();
    assert_eq!(
        events,
        &vec![
            BusEvent::Start,
            BusEvent::AddrWrite(0x50),
            BusEvent::WriteByte(0xA0),
            BusEvent::WriteByte(0x01),
            BusEvent::RepeatedStart,
            BusEvent::AddrRead(0x50),
            BusEvent::ReadByteAck(0x12),
            BusEvent::ReadByteNack(0x34),
            BusEvent::Stop,
        ]
    );
    let starts = events.iter().filter(|e| **e == BusEvent::Start).count();
    let repeats = events
        .iter()
        .filter(|e| **e == BusEvent::RepeatedStart)
        .count();
    let stops = events.iter().filter(|e| **e == BusEvent::Stop).count();
    assert_eq!((starts, repeats, stops), (1, 1, 1));
}

#[test]
fn separate_write_then_read_emits_two_transactions() {
    let mut bus = SimBus::new(0x50);
    bus.load_responses(&[0x12, 0x34]);
    assert!(Write::write(&mut bus, 0x50, &[0xA0, 0x01]).is_ok());
    let mut buf: Vec<u8> = vec![0, 0];
    assert!(bus.read(0x50, &mut buf).is_ok());
    assert_eq!(buf, vec![0x12, 0x34]);
    let events = bus.events();
    let starts = events.iter().filter(|e| **e == BusEvent::Start).count();
    let repeats = events
        .iter()
        .filter(|e| **e == BusEvent::RepeatedStart)
        .count();
    let stops = events.iter().filter(|e| **e == BusEvent::Stop).count();
    assert_eq!((starts, repeats, stops), (2, 0, 2));
}

#[test]
fn write_read_wrong_address_aborts_before_both_phases() {
    let mut bus = SimBus::new(0x50);
    bus.load_responses(&[0x12, 0x34]);
    let mut buf: Vec<u8> = vec![0, 0];
    let r = bus.write_read(0x10, &[0xA0], &mut buf);
    assert_eq!(r, Err(SimError::AddressNack));
    assert_eq!(buf, vec![0, 0]);
    assert_eq!(
        bus.events(),
        &vec![BusEvent::Start, BusEvent::AddrWrite(0x10), BusEvent::Stop]
    );
}

#[test]
fn lazy_write_matches_buffered_write() {
    let payload: [u8; 3] = [0x0B, 0x16, 0x21];
    let mut buffered = SimBus::new(0x42);
    assert!(Write::write(&mut buffered, 0x42, &payload).is_ok());
    let mut lazy = SimBus::new(0x42);
    let src = VecSource::new(payload.to_vec());
    assert!(WriteIter::write(&mut lazy, 0x42, src).is_ok());
    assert_eq!(buffered.events(), lazy.events());
}

#[test]
fn lazy_write_read_matches_buffered_write_read() {
    let payload: [u8; 2] = [0xA0, 0x01];
    let mut buffered = SimBus::new(0x50);
    buffered.load_responses(&[0x55, 0x66]);
    let mut buf_a: Vec<u8> = vec![0, 0];
    assert!(buffered.write_read(0x50, &payload, &mut buf_a).is_ok());
    let mut lazy = SimBus::new(0x50);
    lazy.load_responses(&[0x55, 0x66]);
    let mut buf_b: Vec<u8> = vec![0, 0];
    let src = VecSource::new(payload.to_vec());
    assert!(lazy.write_iter_read(0x50, src, &mut buf_b).is_ok());
    assert_eq!(buf_a, buf_b);
    assert_eq!(buffered.events(), lazy.events());
}

#[test]
fn empty_lazy_write_is_whole_transaction() {
    let mut bus = SimBus::new(0x2A);
    let src = VecSource::new(vec![]);
    let r = WriteIter::write(&mut bus, 0x2A, src);
    assert!(r.is_ok());
    assert_eq!(
        bus.events(),
        &vec![BusEvent::Start, BusEvent::AddrWrite(0x2A), BusEvent::Stop]
    );
}

#[test]
fn calls_through_exclusive_borrow_match_direct_calls() {
    let mut direct = SimBus::new(0x50);
    direct.load_responses(&[8, 9]);
    let mut via_borrow = SimBus::new(0x50);
    via_borrow.load_responses(&[8, 9]);

    let mut buf_direct: Vec<u8> = vec![0, 0];
    let r_direct = Read::read(&mut direct, 0x50, &mut buf_direct);
    assert!(Write::write(&mut direct, 0x50, &[3, 4]).is_ok());
    let e_direct = Write::write(&mut direct, 0x13, &[5]);

    let mut buf_borrow: Vec<u8> = vec![0, 0];
    let r_borrow = Read::read(&mut (&mut via_borrow), 0x50, &mut buf_borrow);
    assert!(Write::write(&mut (&mut via_borrow), 0x50, &[3, 4]).is_ok());
    let e_borrow = Write::write(&mut (&mut via_borrow), 0x13, &[5]);

    assert_eq!(r_direct, r_borrow);
    assert_eq!(e_direct, e_borrow);
    assert_eq!(buf_direct, buf_borrow);
    assert_eq!(direct.events(), via_borrow.events());
}

#[test]
fn borrowed_write_read_matches_direct_write_read() {
    let mut direct = SimBus::new(0x50);
    direct.load_responses(&[1]);
    let mut via_borrow = SimBus::new(0x50);
    via_borrow.load_responses(&[1]);

    let mut buf_direct: Vec<u8> = vec![0];
    assert!(WriteRead::write_read(&mut direct, 0x50, &[2], &mut buf_direct).is_ok());
    let mut buf_borrow: Vec<u8> = vec![0];
    assert!(
        WriteRead::write_read(&mut (&mut via_borrow), 0x50, &[2], &mut buf_borrow).is_ok()
    );

    assert_eq!(buf_direct, buf_borrow);
    assert_eq!(direct.events(), via_borrow.events());
}

#[test]
fn vec_source_yields_bytes_in_order_then_none() {
    let mut src = VecSource::new(vec![10, 20]);
    assert_eq!(src.next_byte(), Some(10));
    assert_eq!(src.next_byte(), Some(20));
    assert_eq!(src.next_byte(), None);
    assert_eq!(src.next_byte(), None);
}
