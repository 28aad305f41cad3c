use tx_listener::address::{parse_address, Address};
use tx_listener::config::{Config, FeedMode};
use tx_listener::listener::Listener;
use tx_listener::processor::{
    process_feed, process_item, process_record, render_notification, Fault, FeedItem,
    TransactionRecord,
};

const TARGET: &str = "0x1234567890abcdef1234567890abcdef12345678";
const OTHER: &str = "0xffffffffffffffffffffffffffffffffffffffff";
const SENDER: &str = "0x00000000000000000000000000000000000000aa";

fn target() -> Address {
    parse_address(TARGET.as_bytes()).unwrap()
}

fn record(recipient: Option<&str>, value_wei: u128, hash_byte: u8) -> TransactionRecord {
    TransactionRecord {
        hash: vec![hash_byte; 32],
        sender: Some(parse_address(SENDER.as_bytes()).unwrap()),
        recipient: recipient.map(|s| parse_address(s.as_bytes()).unwrap()),
        value_wei,
    }
}

#[test]
fn matching_recipient_emits_notification() {
    let n = process_record(&record(Some(TARGET), 1_000_000_000_000_000_000, 1), &target()).unwrap();
    assert_eq!(n.hash, vec![1u8; 32]);
    assert!(n.recipient.eq_addr(&target()));
    assert!(n.sender.as_ref().unwrap().eq_addr(&parse_address(SENDER.as_bytes()).unwrap()));
    assert_eq!(n.amount.whole, 1);
    assert_eq!(n.amount.frac, 0);
}

#[test]
fn other_recipient_emits_nothing() {
    assert!(process_record(&record(Some(OTHER), 1, 2), &target()).is_none());
}

#[test]
fn absent_recipient_emits_nothing() {
    assert!(process_record(&record(None, 1, 3), &target()).is_none());
}

#[test]
fn absent_recipient_is_reported_not_fatal() {
    let item = FeedItem::Records(vec![record(None, 1, 4), record(Some(TARGET), 5, 5)]);
    let out = process_item(&item, &target());
    assert_eq!(out.notifications.len(), 1);
    assert_eq!(out.notifications[0].hash, vec![5u8; 32]);
    assert_eq!(out.faults.len(), 1);
    assert!(matches!(&out.faults[0], Fault::MissingRecipient { hash } if *hash == vec![4u8; 32]));
}

#[test]
fn transport_errors_do_not_stop_later_items() {
    let items = vec![
        FeedItem::TransportError,
        FeedItem::TransportError,
        FeedItem::Records(vec![record(Some(TARGET), 500_000_000_000_000_000, 6)]),
    ];
    let out = process_feed(&items, &target());
    assert_eq!(out.notifications.len(), 1);
    assert_eq!(out.notifications[0].hash, vec![6u8; 32]);
    assert!(matches!(out.faults[0], Fault::Transport));
    assert!(matches!(out.faults[1], Fault::Transport));
    assert_eq!(out.faults.len(), 2);
}

#[test]
fn failed_block_resolution_does_not_stop_later_blocks() {
    let items = vec![
        FeedItem::Unresolved,
        FeedItem::LookupFailed,
        FeedItem::Records(vec![record(Some(TARGET), 1, 7), record(Some(OTHER), 2, 8)]),
        FeedItem::Records(vec![record(Some(TARGET), 3, 9)]),
    ];
    let out = process_feed(&items, &target());
    assert_eq!(out.notifications.len(), 2);
    assert_eq!(out.notifications[0].hash, vec![7u8; 32]);
    assert_eq!(out.notifications[1].hash, vec![9u8; 32]);
    assert!(matches!(out.faults[0], Fault::NotFound));
    assert!(matches!(out.faults[1], Fault::LookupFailed));
    assert_eq!(out.faults.len(), 2);
}

#[test]
fn notification_text_is_rendered_exactly() {
    let n = process_record(&record(Some(TARGET), 1_500_000_000_000_000_000, 0xab), &target()).unwrap();
    let text = String::from_utf8(render_notification(&n)).unwrap();
    assert_eq!(
        text,
        format!(
            "New Transaction Received!\nTx Hash: 0x{}\nFrom: {}\nTo: {}\nValue: 1.5 ETH\n",
            "ab".repeat(32),
            SENDER,
            TARGET,
        )
    );
}

#[test]
fn absent_sender_still_notifies() {
    let mut rec = record(Some(TARGET), 2_000_000_000_000_000_000, 0x01);
    rec.sender = None;
    let n = process_record(&rec, &target()).unwrap();
    assert!(n.sender.is_none());
    let text = String::from_utf8(render_notification(&n)).unwrap();
    assert!(text.contains("From: (none)"));
}

#[test]
fn listener_filters_through_its_configured_address() {
    let config = Config::from_parts("ws://127.0.0.1:8545/".to_string(), TARGET.as_bytes(), FeedMode::PendingTransactions).unwrap();
    let listener = Listener::new(&config);
    assert_eq!(listener.ws_url(), "ws://127.0.0.1:8545/");
    let out = listener.process_item(&FeedItem::Records(vec![
        record(Some(TARGET), 42, 10),
        record(Some(OTHER), 43, 11),
    ]));
    assert_eq!(out.notifications.len(), 1);
    assert_eq!(out.notifications[0].hash, vec![10u8; 32]);
    assert!(out.faults.is_empty());
}
