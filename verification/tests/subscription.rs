use std::io::Write;
use std::sync::Arc;

use alloy_primitives::map::foldhash::{HashMap, HashMapExt};
use flashblocks_rpc::flashblock::{ExecutionPayloadFlashblockDeltaV1, Flashblock, Metadata};
use flashblocks_rpc::subscription::{
    decoding_of, jitter, jitter_upper, jittered, next_backoff, try_decode_message, Action,
    Decoding, Event,
    FlashblocksReceiver, FlashblocksSubscriber, Message, Phase, PingOutcome, IDLE_TIMEOUT_MS,
    MAX_BACKOFF, PING_INTERVAL_MS, PING_SEND_TIMEOUT_MS,
};

fn flashblock(index: u64) -> Flashblock {
    Flashblock {
        payload_id: [0; 8],
        index,
        base: None,
        diff: ExecutionPayloadFlashblockDeltaV1 {
            state_root: [0; 32],
            receipts_root: [0; 32],
            logs_bloom: [0; 256],
            gas_used: 0,
            block_hash: [0; 32],
            transactions: vec![],
            withdrawals: vec![],
            withdrawals_root: [0; 32],
        },
        metadata: Metadata {
            receipts: HashMap::new(),
            new_account_balances: HashMap::new(),
            block_number: 1,
        },
    }
}

fn slept(action: Action) -> u64 {
    match action {
        Action::Sleep(ms) => ms,
        _ => panic!("not a sleep"),
    }
}

#[test]
fn durations_are_as_documented() {
    assert_eq!(PING_INTERVAL_MS, 15_000);
    assert_eq!(MAX_BACKOFF, 10_000);
    assert_eq!(PING_SEND_TIMEOUT_MS, 250);
    assert_eq!(IDLE_TIMEOUT_MS, 60_000);
}

#[test]
fn jitter_is_below_half() {
    assert_eq!(jitter_upper(1_000), 500);
    assert_eq!(jitter_upper(3), 1);
    assert_eq!(jitter_upper(0), 1);
    for _ in 0..1_000 {
        let ms = jitter(1_000);
        assert!((1_000..1_500).contains(&ms));
    }
    assert_eq!(jitter(0), 0);
    assert_eq!(jitter(1), 1);
}

#[test]
fn jitter_saturates() {
    assert_eq!(jittered(1_000, 499), 1_499);
    assert_eq!(jittered(u64::MAX, 1), u64::MAX);
    assert_eq!(jitter(u64::MAX), u64::MAX);
}

#[test]
fn backoff_doubles_up_to_the_maximum() {
    assert_eq!(next_backoff(1_000), 2_000);
    assert_eq!(next_backoff(4_000), 8_000);
    assert_eq!(next_backoff(5_000), 10_000);
    assert_eq!(next_backoff(8_000), 10_000);
    assert_eq!(next_backoff(10_000), 10_000);
    assert_eq!(next_backoff(u64::MAX), 10_000);
}

#[test]
fn failed_connections_back_off() {
    let mut subscriber = FlashblocksSubscriber::new(String::from("ws://localhost:1111"));
    assert_eq!(subscriber.ws_url(), "ws://localhost:1111");
    assert!(matches!(subscriber.start(), Action::Connect));
    let mut slept_for = Vec::new();
    for _ in 0..6 {
        slept_for.push(slept(subscriber.on_event(Event::ConnectFailed, 7)));
        assert_eq!(subscriber.current_phase(), Phase::Sleeping);
        assert!(matches!(subscriber.on_event(Event::Slept, 0), Action::Connect));
        assert_eq!(subscriber.current_phase(), Phase::Connecting);
    }
    assert_eq!(slept_for, vec![1_007, 2_007, 4_007, 8_007, 10_007, 10_007]);
    assert_eq!(subscriber.take_metrics().reconnect_attempts.count(), 6);
    assert_eq!(subscriber.take_metrics().reconnect_attempts.count(), 0);
}

#[test]
fn a_connection_resets_the_backoff() {
    let mut subscriber = FlashblocksSubscriber::new(String::from("ws://localhost:1111"));
    subscriber.start();
    subscriber.on_event(Event::ConnectFailed, 0);
    subscriber.on_event(Event::Slept, 0);
    assert_eq!(subscriber.current_backoff(), 2_000);
    assert!(matches!(subscriber.on_event(Event::Connected, 0), Action::Listen));
    assert_eq!(subscriber.current_backoff(), 1_000);
    assert_eq!(slept(subscriber.on_event(Event::IdleTimeout, 0)), 1_000);
    assert_eq!(subscriber.current_backoff(), 2_000);
}

#[test]
fn a_failed_ping_is_slept_on() {
    let mut subscriber = FlashblocksSubscriber::new(String::from("ws://localhost:1111"));
    subscriber.start();
    subscriber.on_event(Event::Connected, 0);
    assert_eq!(slept(subscriber.on_event(Event::PingFailed, 3)), 1_003);
    assert_eq!(subscriber.take_metrics().reconnect_attempts.count(), 1);
    assert!(PingOutcome::Sent.keeps_pinging());
    assert!(!PingOutcome::Failed.keeps_pinging());
    assert!(!PingOutcome::TimedOut.keeps_pinging());
}

#[test]
fn a_closed_connection_is_replaced_at_once() {
    let mut subscriber = FlashblocksSubscriber::new(String::from("ws://localhost:1111"));
    subscriber.start();
    subscriber.on_event(Event::Connected, 0);
    let action = subscriber.on_event(Event::Received(Message::Close), 0);
    assert!(matches!(action, Action::Connect));
    subscriber.on_event(Event::Connected, 0);
    assert!(matches!(subscriber.on_event(Event::ReceiveFailed, 0), Action::Connect));
    let metrics = subscriber.take_metrics();
    assert_eq!(metrics.upstream_messages.count(), 2);
    assert_eq!(metrics.upstream_errors.count(), 2);
    assert_eq!(metrics.reconnect_attempts.count(), 2);
}

#[test]
fn all_attempts_but_the_first_are_reconnects() {
    let mut subscriber = FlashblocksSubscriber::new(String::from("ws://localhost:1111"));
    let mut attempts = 1;
    subscriber.start();
    let events = vec![
        Event::ConnectFailed,
        Event::Slept,
        Event::Connected,
        Event::Received(Message::Pong),
        Event::Received(Message::Close),
        Event::Connected,
        Event::ReceiveFailed,
        Event::Connected,
        Event::IdleTimeout,
        Event::Slept,
        Event::Connected,
        Event::PingFailed,
        Event::Slept,
        Event::Connected,
    ];
    let mut reconnects = 0;
    for event in events {
        if matches!(subscriber.on_event(event, 0), Action::Connect) {
            attempts += 1;
        }
        reconnects += subscriber.take_metrics().reconnect_attempts.count();
        let ahead = if subscriber.current_phase() == Phase::Sleeping { 1 } else { 0 };
        assert_eq!(reconnects, attempts - 1 + ahead);
    }
    assert_eq!(attempts, 6);
}

#[test]
fn messages_without_flashblocks_are_counted_and_ignored() {
    let mut subscriber = FlashblocksSubscriber::new(String::from("ws://localhost:1111"));
    subscriber.start();
    subscriber.on_event(Event::Connected, 0);
    for message in vec![Message::Text, Message::Pong, Message::Other] {
        assert!(matches!(subscriber.on_event(Event::Received(message), 0), Action::Listen));
        assert_eq!(subscriber.current_phase(), Phase::Listening);
    }
    assert_eq!(subscriber.take_metrics().upstream_messages.count(), 3);
}

#[test]
fn binary_messages_are_decoded_and_delivered() {
    let mut subscriber = FlashblocksSubscriber::new(String::from("ws://localhost:1111"));
    subscriber.start();
    subscriber.on_event(Event::Connected, 0);
    let action = subscriber.on_event(Event::Received(Message::Binary(vec![1, 2, 3])), 0);
    assert!(matches!(action, Action::Decode(bytes) if bytes == vec![1, 2, 3]));
    assert_eq!(subscriber.current_phase(), Phase::Decoding);
    let action = subscriber.on_event(Event::Decoded(Some(flashblock(4))), 0);
    assert!(matches!(action, Action::Deliver(flashblock) if flashblock.index == 4));
    subscriber.on_event(Event::Received(Message::Binary(vec![])), 0);
    assert!(matches!(subscriber.on_event(Event::Decoded(None), 0), Action::Listen));
    assert_eq!(subscriber.current_phase(), Phase::Listening);
}

#[test]
fn random_jitter_stays_in_bounds() {
    let mut subscriber = FlashblocksSubscriber::new(String::from("ws://localhost:1111"));
    subscriber.start();
    let mut backoff = 1_000;
    for _ in 0..8 {
        let ms = slept(subscriber.handle(Event::ConnectFailed));
        assert!(backoff <= ms && 2 * ms < 3 * backoff);
        backoff = next_backoff(backoff);
        assert_eq!(subscriber.current_backoff(), backoff);
        subscriber.handle(Event::Slept);
    }
}

#[test]
fn whatever_arrives_restarts_the_idle_timer() {
    assert!(Event::Connected.restarts_idle_timer());
    assert!(Event::Received(Message::Pong).restarts_idle_timer());
    assert!(Event::ReceiveFailed.restarts_idle_timer());
    assert!(!Event::Decoded(None).restarts_idle_timer());
    assert!(!Event::IdleTimeout.restarts_idle_timer());
}

#[test]
fn plain_messages_are_not_decompressed() {
    let decoding = try_decode_message(&b"{}".to_vec(), Some(flashblock(2)));
    assert!(matches!(decoding, Decoding::Decoded(flashblock) if flashblock.index == 2));
}

#[test]
fn compressed_messages_are_decompressed() {
    let content: Vec<u8> = (0u32..20_000).map(|i| (i * i % 251) as u8).collect();
    let mut compressed = Vec::new();
    {
        let mut writer = brotli::CompressorWriter::new(&mut compressed, 4096, 5, 22);
        writer.write_all(&content).unwrap();
    }
    assert_ne!(compressed, content);
    let decoding = try_decode_message(&compressed, None);
    assert!(matches!(decoding, Decoding::Parse(parsed) if parsed == content));
}

#[test]
fn decompressed_content_is_parsed() {
    assert!(matches!(decoding_of(Some(vec![1])), Decoding::Parse(content) if content == vec![1]));
    assert!(matches!(decoding_of(None), Decoding::Undecodable));
}

#[test]
fn garbage_cannot_be_decoded() {
    assert!(matches!(try_decode_message(&vec![0xff; 40], None), Decoding::Undecodable));
    assert!(matches!(try_decode_message(&vec![], None), Decoding::Undecodable));
}

#[test]
fn a_truncated_message_cannot_be_decoded() {
    let content = vec![7u8; 10_000];
    let mut compressed = Vec::new();
    {
        let mut writer = brotli::CompressorWriter::new(&mut compressed, 4096, 5, 22);
        writer.write_all(&content).unwrap();
    }
    compressed.truncate(compressed.len() / 2);
    assert!(matches!(try_decode_message(&compressed, None), Decoding::Undecodable));
}

struct Indices(std::sync::Mutex<Vec<u64>>);

impl FlashblocksReceiver for Indices {
    fn on_flashblock_received(&self, flashblock: Flashblock) {
        self.0.lock().unwrap().push(flashblock.index);
    }
}

#[test]
fn a_receiver_takes_what_is_delivered() {
    let receiver = Arc::new(Indices(std::sync::Mutex::new(Vec::new())));
    let mut subscriber = FlashblocksSubscriber::new(String::from("ws://localhost:1111"));
    subscriber.start();
    subscriber.on_event(Event::Connected, 0);
    for index in 0..3 {
        subscriber.on_event(Event::Received(Message::Binary(vec![])), 0);
        match subscriber.on_event(Event::Decoded(Some(flashblock(index))), 0) {
            Action::Deliver(flashblock) => receiver.on_flashblock_received(flashblock),
            _ => panic!("not delivered"),
        }
    }
    assert_eq!(*receiver.0.lock().unwrap(), vec![0, 1, 2]);
}
