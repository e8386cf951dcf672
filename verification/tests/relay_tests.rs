use relay_core::{LastValueRelay, RelayAction, RelayEvent, SubscriptionEvent, decode_subscription_event};

fn subscribe_frame(topic: &[u8]) -> Vec<u8> {
    let mut f = vec![1u8];
    f.extend_from_slice(topic);
    f
}

fn unsubscribe_frame(topic: &[u8]) -> Vec<u8> {
    let mut f = vec![0u8];
    f.extend_from_slice(topic);
    f
}

#[test]
fn late_join_replay_after_publish() {
    let mut relay = LastValueRelay::new();
    let act = relay.poll_step(RelayEvent::Inbound(b"sensors/a".to_vec(), b"1.0".to_vec()));
    match act {
        RelayAction::Forward(f) => {
            assert_eq!(f.topic, b"sensors/a".to_vec());
            assert_eq!(f.payload, b"1.0".to_vec());
        }
        _ => panic!("inbound frame must be forwarded"),
    }
    // a subscription arriving after the publish is answered with the cached
    // payload, without any new publish
    let act = relay.poll_step(RelayEvent::OutboundActivity(subscribe_frame(b"sensors/a")));
    match act {
        RelayAction::Replay(f) => {
            assert_eq!(f.topic, b"sensors/a".to_vec());
            assert_eq!(f.payload, b"1.0".to_vec());
        }
        _ => panic!("late joiner must receive the cached payload"),
    }
}

#[test]
fn overwrite_replays_latest_only() {
    let mut relay = LastValueRelay::new();
    relay.poll_step(RelayEvent::Inbound(b"t".to_vec(), b"p1".to_vec()));
    relay.poll_step(RelayEvent::Inbound(b"t".to_vec(), b"p2".to_vec()));
    let act = relay.poll_step(RelayEvent::OutboundActivity(subscribe_frame(b"t")));
    match act {
        RelayAction::Replay(f) => {
            assert_eq!(f.payload, b"p2".to_vec());
            assert_ne!(f.payload, b"p1".to_vec());
        }
        _ => panic!("late joiner must receive the latest payload"),
    }
}

#[test]
fn no_replay_for_never_published_topic() {
    let mut relay = LastValueRelay::new();
    relay.poll_step(RelayEvent::Inbound(b"other".to_vec(), b"x".to_vec()));
    let act = relay.poll_step(RelayEvent::OutboundActivity(subscribe_frame(b"fresh")));
    assert!(matches!(act, RelayAction::Idle));
}

#[test]
fn unsubscribe_event_triggers_nothing() {
    let mut relay = LastValueRelay::new();
    relay.poll_step(RelayEvent::Inbound(b"t".to_vec(), b"p".to_vec()));
    let act = relay.poll_step(RelayEvent::OutboundActivity(unsubscribe_frame(b"t")));
    assert!(matches!(act, RelayAction::Idle));
}

#[test]
fn timeout_shuts_the_loop_down() {
    let mut relay = LastValueRelay::new();
    let act = relay.poll_step(RelayEvent::TimedOut);
    assert!(matches!(act, RelayAction::Shutdown));
}

#[test]
fn decode_subscription_event_frames() {
    match decode_subscription_event(&subscribe_frame(b"abc")) {
        Some(SubscriptionEvent::Subscribed(t)) => assert_eq!(t, b"abc".to_vec()),
        _ => panic!("prefix 1 means newly subscribed"),
    }
    match decode_subscription_event(&unsubscribe_frame(b"abc")) {
        Some(SubscriptionEvent::Unsubscribed(t)) => assert_eq!(t, b"abc".to_vec()),
        _ => panic!("prefix 0 means unsubscribed"),
    }
    assert!(decode_subscription_event(&Vec::new()).is_none());
    assert!(decode_subscription_event(&vec![7u8, 97u8]).is_none());
}
