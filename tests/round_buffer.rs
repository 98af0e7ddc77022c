use tofn::round_buffer::{MsgKind, RoundBuffer};

#[test]
fn buffer_fills_and_stops_expecting() {
    let mut b = RoundBuffer::new(1, 2, true, true);
    assert!(b.expecting_more_msgs_this_round());
    assert!(b.msg_in(1, 0, MsgKind::Bcast, &[1]).is_ok());
    assert!(b.msg_in(1, 1, MsgKind::Bcast, &[2]).is_ok());
    assert!(b.expecting_more_msgs_this_round());
    assert!(b.msg_in(1, 0, MsgKind::P2p { to: 1 }, &[3]).is_ok());
    assert!(b.expecting_more_msgs_this_round());
    assert!(b.msg_in(1, 1, MsgKind::P2p { to: 0 }, &[4]).is_ok());
    assert!(!b.expecting_more_msgs_this_round());
    assert!(b.faulters().is_empty());
}

#[test]
fn duplicate_delivery_marks_sender() {
    let mut b = RoundBuffer::new(3, 3, true, false);
    assert!(b.msg_in(3, 2, MsgKind::Bcast, &[7]).is_ok());
    assert!(b.msg_in(3, 2, MsgKind::Bcast, &[7]).is_ok());
    assert_eq!(b.faulters(), vec![2]);
    assert!(b.msg_in(3, 0, MsgKind::Bcast, &[1]).is_ok());
    assert!(b.msg_in(3, 1, MsgKind::Bcast, &[1]).is_ok());
    assert!(!b.expecting_more_msgs_this_round());
}

#[test]
fn malformed_envelopes_are_refused() {
    let mut b = RoundBuffer::new(2, 2, false, true);
    assert!(b.msg_in(1, 0, MsgKind::P2p { to: 1 }, &[1]).is_err());
    assert!(b.msg_in(2, 5, MsgKind::Bcast, &[1]).is_err());
    assert!(b.msg_in(2, 0, MsgKind::P2p { to: 0 }, &[1]).is_err());
    assert!(b.msg_in(2, 0, MsgKind::P2p { to: 2 }, &[1]).is_err());
    assert!(b.faulters().is_empty());
    // broadcasts are not expected this round
    assert!(b.msg_in(2, 0, MsgKind::P2p { to: 1 }, &[1]).is_ok());
    assert!(b.msg_in(2, 1, MsgKind::P2p { to: 0 }, &[1]).is_ok());
    assert!(!b.expecting_more_msgs_this_round());
}
