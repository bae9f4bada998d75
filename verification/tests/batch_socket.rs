//! Batches of packets and addresses in raw form.

use rperf3::batch_socket::{
    adaptive_batch_size, after_first_try, after_second_try, queued_send_outcome, RecvNext,
    SendReply, TryReply, UdpRecvBatch, UdpSendBatch, MAX_BATCH_SIZE, MAX_PACKET_SIZE,
};
use rperf3::net::{from_raw, to_raw, AddrError, IpAddr, RawAddr, SocketAddr, AF_INET, AF_INET6};

fn v4(a: u8, b: u8, c: u8, d: u8, port: u16) -> SocketAddr {
    SocketAddr { ip: IpAddr::V4([a, b, c, d]), port }
}

/// A raw address with room for any family.
fn padded(addr: &SocketAddr) -> RawAddr {
    let mut raw = to_raw(addr);
    raw.data.resize(126, 0);
    raw
}

#[test]
fn test_batch_capacity() {
    let mut batch = UdpSendBatch::new();
    assert_eq!(batch.len(), 0);
    assert!(batch.is_empty());
    assert!(!batch.is_full());

    for i in 0..MAX_BATCH_SIZE {
        let packet = vec![i as u8; 100];
        let addr = v4(127, 0, 0, 1, 5000);
        assert!(batch.add(packet, addr));
    }

    assert_eq!(batch.len(), MAX_BATCH_SIZE);
    assert!(!batch.is_empty());
    assert!(batch.is_full());

    // Should not be able to add more
    let packet = vec![0u8; 100];
    let addr = v4(127, 0, 0, 1, 5000);
    assert!(!batch.add(packet, addr));
}

#[test]
fn test_batch_clear() {
    let mut batch = UdpSendBatch::new();

    for i in 0..10 {
        let packet = vec![i as u8; 100];
        let addr = v4(127, 0, 0, 1, 5000);
        batch.add(packet, addr);
    }

    assert_eq!(batch.len(), 10);
    batch.clear();
    assert_eq!(batch.len(), 0);
    assert!(batch.is_empty());
}

#[test]
fn what_was_sent_leaves_the_batch() {
    let mut batch = UdpSendBatch::with_capacity(1_000_000);
    for i in 0..5u8 {
        batch.add(vec![i; 10 + i as usize], v4(10, 0, 0, i, 1000 + i as u16));
    }
    assert_eq!(batch.on_reply(SendReply::WouldBlock), Ok((0, 0)));
    assert_eq!(batch.len(), 5);
    assert!(batch.on_reply(SendReply::Failed).is_err());
    assert_eq!(batch.len(), 5);
    assert_eq!(batch.on_reply(SendReply::Sent(vec![10, 11])), Ok((21, 2)));
    assert_eq!(batch.len(), 3);
    assert_eq!(batch.packets[0], vec![2u8; 12]);
    assert_eq!(batch.addresses[0], v4(10, 0, 0, 2, 1002));
    batch.remove_sent(3);
    assert!(batch.is_empty());
    assert_eq!(UdpSendBatch::default().len(), 0);
}

#[test]
fn batch_size_follows_the_rate() {
    assert_eq!(adaptive_batch_size(None, 1480), 64);
    // 999 packets a second, then 1000, then 9999, then 10000
    assert_eq!(adaptive_batch_size(Some(999 * 8000), 1000), 16);
    assert_eq!(adaptive_batch_size(Some(1000 * 8000), 1000), 32);
    assert_eq!(adaptive_batch_size(Some(9999 * 8000), 1000), 32);
    assert_eq!(adaptive_batch_size(Some(10000 * 8000), 1000), 64);
    assert_eq!(adaptive_batch_size(Some(0), 1), 16);
}

#[test]
fn receive_decisions() {
    assert_eq!(after_first_try(TryReply::Got(3)), RecvNext::Done(3));
    assert_eq!(after_first_try(TryReply::Got(0)), RecvNext::Wait);
    assert_eq!(after_first_try(TryReply::WouldBlock), RecvNext::Wait);
    assert_eq!(after_first_try(TryReply::Failed), RecvNext::Fail);
    assert_eq!(after_second_try(TryReply::Got(0)), RecvNext::Done(0));
    assert_eq!(after_second_try(TryReply::WouldBlock), RecvNext::Fail);
    assert_eq!(after_second_try(TryReply::Failed), RecvNext::Fail);
}

#[test]
fn received_batch() {
    let mut batch = UdpRecvBatch::new();
    assert!(batch.is_empty());
    assert_eq!(batch.len(), 0);
    assert_eq!(batch.packets.len(), 64);
    assert!(batch.packets.iter().all(|p| p.len() == MAX_PACKET_SIZE));
    batch.packets[0][0] = 7;
    batch.packets[1][0] = 8;
    let from = vec![padded(&v4(1, 2, 3, 4, 99)), padded(&v4(5, 6, 7, 8, 100))];
    assert_eq!(batch.accept_all(&vec![3, 0], &from), Ok(2));
    assert_eq!(batch.len(), 2);
    assert_eq!(batch.get(0), Some((&[7u8, 0, 0][..], v4(1, 2, 3, 4, 99))));
    assert_eq!(batch.get(1), Some((&[][..], v4(5, 6, 7, 8, 100))));
    assert_eq!(batch.get(2), None);
    let items = batch.iter();
    assert_eq!(items.len(), 2);
    assert_eq!(items[0].1, v4(1, 2, 3, 4, 99));
    batch.prepare();
    assert_eq!(batch.packets[1].len(), MAX_PACKET_SIZE);
    assert_eq!(batch.packets[0][0], 7);
    batch.restart();
    assert!(batch.is_empty());
    batch.accept(5, v4(9, 9, 9, 9, 9));
    assert_eq!(batch.get(0).unwrap().0.len(), 5);
    // A short packet does not cut the ones that come after it
    batch.restart();
    batch.accept(900, v4(9, 9, 9, 9, 9));
    assert_eq!(batch.get(0).unwrap().0.len(), 900);
    assert_eq!(batch.packets[0][0], 7);
}

#[test]
fn foreign_address_stops_a_batch() {
    let mut batch = UdpRecvBatch::default();
    let mut foreign = padded(&v4(1, 1, 1, 1, 1));
    foreign.family = 1;
    let from = vec![padded(&v4(1, 2, 3, 4, 99)), foreign, padded(&v4(5, 6, 7, 8, 100))];
    assert_eq!(batch.accept_all(&vec![3, 4, 5], &from), Err(AddrError::UnsupportedFamily));
    assert_eq!(batch.len(), 0);
    assert_eq!(batch.packets[0].len(), 3);
    assert_eq!(batch.packets[1].len(), MAX_PACKET_SIZE);
}

#[test]
fn raw_addresses() {
    let raw = to_raw(&v4(192, 168, 1, 100, 5201));
    assert_eq!(raw.family, AF_INET);
    assert_eq!(raw.data, vec![20, 81, 192, 168, 1, 100, 0, 0, 0, 0, 0, 0, 0, 0]);
    let six = SocketAddr {
        ip: IpAddr::V6([0xfe, 0x80, 2, 3, 4, 5, 6, 7, 8, 9, 10, 11, 12, 13, 14, 15]),
        port: 0xabcd,
    };
    let raw = to_raw(&six);
    assert_eq!(raw.family, AF_INET6);
    assert_eq!(raw.data.len(), 26);
    assert_eq!(&raw.data[..8], &[0xab, 0xcd, 0, 0, 0, 0, 0xfe, 0x80]);
    for addr in [v4(192, 168, 1, 100, 5201), v4(0, 0, 0, 0, 0), six] {
        let raw = padded(&addr);
        assert_eq!(from_raw(raw.family, &raw.data), Ok(addr));
    }
    assert_eq!(from_raw(0, &[0u8; 126]), Err(AddrError::UnsupportedFamily));
}

#[test]
fn queued_send_answers() {
    assert_eq!(queued_send_outcome(0, 6400, 100, None), 64);
    assert_eq!(queued_send_outcome(0, 150, 100, None), 1);
    assert_eq!(queued_send_outcome(-1, 0, 0, Some(10035)), 0);
    assert_eq!(queued_send_outcome(-1, 0, 0, Some(10054)), -1);
    assert_eq!(queued_send_outcome(-1, 0, 0, None), -1);
    assert_eq!(queued_send_outcome(5, 0, 0, None), 5);
}
