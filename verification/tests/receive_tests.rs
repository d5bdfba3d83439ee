use tn5250r::network::{AS400Connection, ChannelPoll, ProtocolMode};
use tn5250r::receive::{read_event, receive_step, ReceiveAction, ReceiveEvent, ReceiveLoop, StopReason};

#[test]
fn test_receive_step_decisions() {
    let st = ReceiveLoop::new();
    assert_eq!(receive_step(st, read_event(&[])).1, ReceiveAction::Stop { reason: StopReason::Closed, suspicious: false });
    assert_eq!(receive_step(st, read_event(&[0x41, 0x42])), (ReceiveLoop { consecutive_errors: 0 }, ReceiveAction::Forward));
    assert_eq!(receive_step(st, ReceiveEvent::TimedOut), (st, ReceiveAction::Retry(50)));
    assert_eq!(
        receive_step(st, read_event(&[0u8; 40])),
        (ReceiveLoop { consecutive_errors: 1 }, ReceiveAction::Backoff { millis: 100, suspicious: true })
    );
    assert_eq!(
        receive_step(ReceiveLoop { consecutive_errors: 3 }, ReceiveEvent::Failed),
        (ReceiveLoop { consecutive_errors: 4 }, ReceiveAction::Backoff { millis: 400, suspicious: false })
    );
    assert_eq!(
        receive_step(ReceiveLoop { consecutive_errors: 9 }, ReceiveEvent::Failed).1,
        ReceiveAction::Stop { reason: StopReason::TooManyErrors, suspicious: false }
    );
    assert_eq!(
        receive_step(ReceiveLoop { consecutive_errors: 2 }, ReceiveEvent::Read { len: 9000, sound: true }).1,
        ReceiveAction::Backoff { millis: 300, suspicious: false }
    );
    assert_eq!(receive_step(st, ReceiveEvent::ForwardFailed).1, ReceiveAction::Stop { reason: StopReason::ReceiverGone, suspicious: false });
}

#[test]
fn test_receive_data_channel() {
    let mut conn = AS400Connection::new("host".to_string(), 23);
    assert_eq!(conn.receive_data_channel(ChannelPoll::Data(vec![0x41])), None);
    conn.mark_established();
    conn.set_protocol_mode(ProtocolMode::TN5250);
    assert_eq!(conn.receive_data_channel(ChannelPoll::Data(vec![0x41, 255, 251, 24, 0x42])), Some(vec![0x41, 0x42]));
    assert_eq!(conn.receive_data_channel(ChannelPoll::Empty), None);
    assert!(conn.is_connected());
    assert_eq!(conn.receive_data_channel(ChannelPoll::Disconnected), None);
    assert!(!conn.is_connected());
}
