//! The event processor: resolves pushed feed items into transaction
//! records, filters them against the target address, converts values, and
//! reports per-item faults without stopping the feed.

use vstd::prelude::*;
use vstd::string::StringSliceAdditionalSpecFns;
use crate::address::Address;
use crate::address::encode_hex;
use crate::address::hex_encoding;
use crate::units::EthAmount;
use crate::units::convert_wei_to_eth;
use crate::units::converted;
use crate::units::eth_decimal;
use crate::units::format_eth;

verus! {

/// Resolved detail for one transaction. Sender and recipient may be
/// absent (contract creation has no recipient); that is a valid state,
/// not an error.
pub struct TransactionRecord {
    pub hash: Vec<u8>,
    pub sender: Option<Address>,
    pub recipient: Option<Address>,
    pub value_wei: u128,
}

/// What one record is, mathematically.
pub ghost struct RecordModel {
    pub hash: Seq<u8>,
    pub sender: Option<Seq<u8>>,
    pub recipient: Option<Seq<u8>>,
    pub value_wei: u128,
}

impl View for TransactionRecord {
    type V = RecordModel;

    open spec fn view(&self) -> RecordModel {
        RecordModel {
            hash: self.hash@,
            sender: match self.sender {
                Some(a) => Some(a@),
                None => None,
            },
            recipient: match self.recipient {
                Some(a) => Some(a@),
                None => None,
            },
            value_wei: self.value_wei,
        }
    }
}

/// The human-facing report emitted for a matching transaction.
pub struct Notification {
    pub hash: Vec<u8>,
    pub sender: Option<Address>,
    pub recipient: Address,
    pub amount: EthAmount,
}

/// What one notification is, mathematically.
pub ghost struct NotificationModel {
    pub hash: Seq<u8>,
    pub sender: Option<Seq<u8>>,
    pub recipient: Seq<u8>,
    pub amount: EthAmount,
}

impl View for Notification {
    type V = NotificationModel;

    open spec fn view(&self) -> NotificationModel {
        NotificationModel {
            hash: self.hash@,
            sender: match self.sender {
                Some(a) => Some(a@),
                None => None,
            },
            recipient: self.recipient@,
            amount: self.amount,
        }
    }
}

/// A recoverable fault observed while processing one feed item; reported,
/// never fatal.
pub enum Fault {
    /// The push itself failed to decode or the transport signaled an error.
    Transport,
    /// The detail lookup for the pushed item failed.
    LookupFailed,
    /// The detail lookup answered that the item does not exist.
    NotFound,
    /// A record carries no recipient, so no match is possible.
    MissingRecipient { hash: Vec<u8> },
}

/// What one fault is, mathematically.
pub ghost enum FaultModel {
    Transport,
    LookupFailed,
    NotFound,
    MissingRecipient { hash: Seq<u8> },
}

impl View for Fault {
    type V = FaultModel;

    open spec fn view(&self) -> FaultModel {
        match self {
            Fault::Transport => FaultModel::Transport,
            Fault::LookupFailed => FaultModel::LookupFailed,
            Fault::NotFound => FaultModel::NotFound,
            Fault::MissingRecipient { hash } => FaultModel::MissingRecipient { hash: hash@ },
        }
    }
}

/// One item of the subscription feed, after the surrounding runtime has
/// resolved it: either a per-item failure or the records it resolved to
/// (one for a pending-transaction feed, a whole block's worth for a
/// block-header feed).
pub enum FeedItem {
    /// The pushed item arrived as a transport-level error.
    TransportError,
    /// The detail lookup for the pushed item errored.
    LookupFailed,
    /// The pushed item could not be resolved: not found.
    Unresolved,
    /// The records the pushed item resolved to.
    Records(Vec<TransactionRecord>),
}

/// What one feed item is, mathematically.
pub ghost enum ItemModel {
    TransportError,
    LookupFailed,
    Unresolved,
    Records(Seq<RecordModel>),
}

impl View for FeedItem {
    type V = ItemModel;

    open spec fn view(&self) -> ItemModel {
        match self {
            FeedItem::TransportError => ItemModel::TransportError,
            FeedItem::LookupFailed => ItemModel::LookupFailed,
            FeedItem::Unresolved => ItemModel::Unresolved,
            FeedItem::Records(rs) => ItemModel::Records(record_views(rs@)),
        }
    }
}

pub open spec fn record_views(s: Seq<TransactionRecord>) -> Seq<RecordModel> {
    s.map_values(|r: TransactionRecord| r@)
}

pub open spec fn notification_views(s: Seq<Notification>) -> Seq<NotificationModel> {
    s.map_values(|n: Notification| n@)
}

pub open spec fn fault_views(s: Seq<Fault>) -> Seq<FaultModel> {
    s.map_values(|f: Fault| f@)
}

/// A record matches when it names a recipient and that recipient is,
/// byte for byte, the target address.
pub open spec fn record_matches(rec: RecordModel, target: Seq<u8>) -> bool {
    rec.recipient is Some && rec.recipient->0 == target
}

/// The notification a matching record gives rise to: same hash and
/// sender, the recipient, and the value converted to ether.
pub open spec fn notification_of(rec: RecordModel) -> NotificationModel {
    NotificationModel {
        hash: rec.hash,
        sender: rec.sender,
        recipient: rec.recipient->0,
        amount: converted(rec.value_wei),
    }
}

/// The notifications that a run of records yields against a target, in
/// record order: one per matching record, none for the rest.
pub open spec fn notifications_of(recs: Seq<RecordModel>, target: Seq<u8>) -> Seq<NotificationModel>
    decreases recs.len(),
{
    if recs.len() == 0 {
        Seq::empty()
    } else if record_matches(recs.last(), target) {
        notifications_of(recs.drop_last(), target).push(notification_of(recs.last()))
    } else {
        notifications_of(recs.drop_last(), target)
    }
}

/// The faults that a run of records yields: one per record that names no
/// recipient.
pub open spec fn record_faults(recs: Seq<RecordModel>) -> Seq<FaultModel>
    decreases recs.len(),
{
    if recs.len() == 0 {
        Seq::empty()
    } else if recs.last().recipient is None {
        record_faults(recs.drop_last()).push(FaultModel::MissingRecipient { hash: recs.last().hash })
    } else {
        record_faults(recs.drop_last())
    }
}

/// The notifications one feed item yields: only resolved records can match.
pub open spec fn item_notifications(item: ItemModel, target: Seq<u8>) -> Seq<NotificationModel> {
    match item {
        ItemModel::Records(rs) => notifications_of(rs, target),
        _ => Seq::empty(),
    }
}

/// The faults one feed item yields: a failed item is one fault; resolved
/// records fault only where a recipient is missing.
pub open spec fn item_faults(item: ItemModel) -> Seq<FaultModel> {
    match item {
        ItemModel::TransportError => seq![FaultModel::Transport],
        ItemModel::LookupFailed => seq![FaultModel::LookupFailed],
        ItemModel::Unresolved => seq![FaultModel::NotFound],
        ItemModel::Records(rs) => record_faults(rs),
    }
}

/// The notifications of a whole feed, in arrival order.
pub open spec fn feed_notifications(items: Seq<ItemModel>, target: Seq<u8>) -> Seq<NotificationModel>
    decreases items.len(),
{
    if items.len() == 0 {
        Seq::empty()
    } else {
        feed_notifications(items.drop_last(), target) + item_notifications(items.last(), target)
    }
}

/// The faults of a whole feed, in arrival order.
pub open spec fn feed_faults(items: Seq<ItemModel>) -> Seq<FaultModel>
    decreases items.len(),
{
    if items.len() == 0 {
        Seq::empty()
    } else {
        feed_faults(items.drop_last()) + item_faults(items.last())
    }
}

/// Everything the processor produced for some stretch of the feed.
pub struct StepOutput {
    pub notifications: Vec<Notification>,
    pub faults: Vec<Fault>,
}

fn clone_bytes(v: &Vec<u8>) -> (r: Vec<u8>)
    ensures
        r@ == v@,
{
    let mut r: Vec<u8> = Vec::new();
    let n = v.len();
    let mut i: usize = 0;
    while i < n
        invariant
            n == v@.len(),
            0 <= i <= n,
            r@ =~= v@.take(i as int),
        decreases n - i,
    {
        r.push(v[i]);
        i += 1;
    }
    proof {
        assert(r@ =~= v@);
    }
    r
}

/// Filters one record against the target: a notification exactly when
/// the record's recipient equals the target address.
pub fn process_record(rec: &TransactionRecord, target: &Address) -> (r: Option<Notification>)
    ensures
        r is Some <==> record_matches(rec@, target@),
        r is Some ==> r->0@ == notification_of(rec@),
{
    match &rec.recipient {
        Some(to) => {
            if to.eq_addr(target) {
                let sender = match &rec.sender {
                    Some(a) => Some(a.clone()),
                    None => None,
                };
                Some(Notification {
                    hash: clone_bytes(&rec.hash),
                    sender,
                    recipient: to.clone(),
                    amount: convert_wei_to_eth(rec.value_wei),
                })
            } else {
                None
            }
        },
        None => None,
    }
}

/// Processes a resolved run of records, appending its notifications and
/// missing-recipient faults.
fn process_records_into(
    records: &Vec<TransactionRecord>,
    target: &Address,
    notifications: &mut Vec<Notification>,
    faults: &mut Vec<Fault>,
)
    ensures
        notification_views(final(notifications)@) == notification_views(old(notifications)@)
            + notifications_of(record_views(records@), target@),
        fault_views(final(faults)@) == fault_views(old(faults)@) + record_faults(record_views(records@)),
{
    let ghost base_n = notification_views(notifications@);
    let ghost base_f = fault_views(faults@);
    let ghost rs = record_views(records@);
    let n = records.len();
    let mut i: usize = 0;
    while i < n
        invariant
            n == records@.len(),
            0 <= i <= n,
            rs == record_views(records@),
            notification_views(notifications@) == base_n + notifications_of(rs.take(i as int), target@),
            fault_views(faults@) == base_f + record_faults(rs.take(i as int)),
        decreases n - i,
    {
        let rec = &records[i];
        proof {
            assert(rs.take(i + 1).drop_last() =~= rs.take(i as int));
            assert(rs.take(i + 1).last() == rec@);
        }
        let ghost ns_before = notifications@;
        let ghost fs_before = faults@;
        match process_record(rec, target) {
            Some(notification) => {
                notifications.push(notification);
                proof {
                    assert(notification_views(notifications@) =~= notification_views(ns_before).push(
                        notification@,
                    ));
                }
            },
            None => {
                if rec.recipient.is_none() {
                    faults.push(Fault::MissingRecipient { hash: clone_bytes(&rec.hash) });
                    proof {
                        assert(fault_views(faults@) =~= fault_views(fs_before).push(
                            FaultModel::MissingRecipient { hash: rec@.hash },
                        ));
                    }
                }
            },
        }
        i += 1;
    }
    proof {
        assert(rs.take(n as int) =~= rs);
    }
}

/// Processes one feed item, appending whatever it yields. A failed item
/// contributes one fault and nothing more; it never ends processing.
pub fn process_item_into(
    item: &FeedItem,
    target: &Address,
    notifications: &mut Vec<Notification>,
    faults: &mut Vec<Fault>,
)
    ensures
        notification_views(final(notifications)@) == notification_views(old(notifications)@)
            + item_notifications(item@, target@),
        fault_views(final(faults)@) == fault_views(old(faults)@) + item_faults(item@),
{
    let ghost fs_before = faults@;
    match item {
        FeedItem::TransportError => {
            faults.push(Fault::Transport);
            proof {
                assert(fault_views(faults@) =~= fault_views(fs_before) + item_faults(item@));
                assert(notification_views(notifications@) =~= notification_views(notifications@)
                    + item_notifications(item@, target@));
            }
        },
        FeedItem::LookupFailed => {
            faults.push(Fault::LookupFailed);
            proof {
                assert(fault_views(faults@) =~= fault_views(fs_before) + item_faults(item@));
                assert(notification_views(notifications@) =~= notification_views(notifications@)
                    + item_notifications(item@, target@));
            }
        },
        FeedItem::Unresolved => {
            faults.push(Fault::NotFound);
            proof {
                assert(fault_views(faults@) =~= fault_views(fs_before) + item_faults(item@));
                assert(notification_views(notifications@) =~= notification_views(notifications@)
                    + item_notifications(item@, target@));
            }
        },
        FeedItem::Records(records) => {
            process_records_into(records, target, notifications, faults);
        },
    }
}

/// Processes one feed item on its own.
pub fn process_item(item: &FeedItem, target: &Address) -> (r: StepOutput)
    ensures
        notification_views(r.notifications@) == item_notifications(item@, target@),
        fault_views(r.faults@) == item_faults(item@),
{
    let mut notifications: Vec<Notification> = Vec::new();
    let mut faults: Vec<Fault> = Vec::new();
    proof {
        assert(notification_views(notifications@) =~= Seq::<NotificationModel>::empty());
        assert(fault_views(faults@) =~= Seq::<FaultModel>::empty());
    }
    process_item_into(item, target, &mut notifications, &mut faults);
    StepOutput { notifications, faults }
}

/// Processes a whole stretch of the feed in arrival order. Every item is
/// processed: a fault on one item never suppresses a later item's
/// notifications.
pub fn process_feed(items: &Vec<FeedItem>, target: &Address) -> (r: StepOutput)
    ensures
        notification_views(r.notifications@) == feed_notifications(
            items@.map_values(|it: FeedItem| it@),
            target@,
        ),
        fault_views(r.faults@) == feed_faults(items@.map_values(|it: FeedItem| it@)),
{
    let ghost models = items@.map_values(|it: FeedItem| it@);
    let mut notifications: Vec<Notification> = Vec::new();
    let mut faults: Vec<Fault> = Vec::new();
    proof {
        assert(notification_views(notifications@) =~= Seq::<NotificationModel>::empty());
        assert(fault_views(faults@) =~= Seq::<FaultModel>::empty());
    }
    let n = items.len();
    let mut i: usize = 0;
    while i < n
        invariant
            n == items@.len(),
            0 <= i <= n,
            models == items@.map_values(|it: FeedItem| it@),
            notification_views(notifications@) == feed_notifications(models.take(i as int), target@),
            fault_views(faults@) == feed_faults(models.take(i as int)),
        decreases n - i,
    {
        proof {
            assert(models.take(i + 1).drop_last() =~= models.take(i as int));
            assert(models.take(i + 1).last() == items@[i as int]@);
        }
        process_item_into(&items[i], target, &mut notifications, &mut faults);
        i += 1;
    }
    proof {
        assert(models.take(n as int) =~= models);
    }
    StepOutput { notifications, faults }
}

/// The sender line's text: the sender's hex form, or a placeholder
/// where a sender is absent.
pub open spec fn sender_text(sender: Option<Seq<u8>>) -> Seq<u8> {
    match sender {
        Some(bytes) => hex_encoding(bytes),
        None => "(none)".spec_bytes(),
    }
}

/// The operator-facing text of one notification: hash, sender,
/// recipient and the value in ether, one line each.
pub open spec fn notification_text(n: NotificationModel) -> Seq<u8> {
    "New Transaction Received!\nTx Hash: ".spec_bytes() + hex_encoding(n.hash)
        + "\nFrom: ".spec_bytes() + sender_text(n.sender) + "\nTo: ".spec_bytes()
        + hex_encoding(n.recipient) + "\nValue: ".spec_bytes() + eth_decimal(n.amount)
        + " ETH\n".spec_bytes()
}

fn push_all(out: &mut Vec<u8>, bytes: &[u8])
    ensures
        final(out)@ == old(out)@ + bytes@,
{
    let ghost base = out@;
    let n = bytes.len();
    let mut i: usize = 0;
    while i < n
        invariant
            n == bytes@.len(),
            0 <= i <= n,
            out@ == base + bytes@.take(i as int),
        decreases n - i,
    {
        out.push(bytes[i]);
        i += 1;
        proof {
            assert(out@ =~= base + bytes@.take(i as int));
        }
    }
    proof {
        assert(out@ =~= base + bytes@);
    }
}

fn push_str_bytes(out: &mut Vec<u8>, s: &str)
    ensures
        final(out)@ == old(out)@ + s.spec_bytes(),
{
    push_all(out, s.as_bytes());
}

/// Renders one notification as the text the operator sees, exactly as
/// `notification_text` states it.
pub fn render_notification(n: &Notification) -> (r: Vec<u8>)
    requires
        n.amount.wf(),
    ensures
        r@ == notification_text(n@),
{
    let mut out: Vec<u8> = Vec::new();
    push_str_bytes(&mut out, "New Transaction Received!\nTx Hash: ");
    let hash_hex = encode_hex(n.hash.as_slice());
    push_all(&mut out, hash_hex.as_slice());
    push_str_bytes(&mut out, "\nFrom: ");
    match &n.sender {
        Some(sender) => {
            let sender_hex = sender.to_hex();
            push_all(&mut out, sender_hex.as_slice());
        },
        None => {
            push_str_bytes(&mut out, "(none)");
        },
    }
    push_str_bytes(&mut out, "\nTo: ");
    let recipient_hex = n.recipient.to_hex();
    push_all(&mut out, recipient_hex.as_slice());
    push_str_bytes(&mut out, "\nValue: ");
    let value = format_eth(&n.amount);
    push_all(&mut out, value.as_slice());
    push_str_bytes(&mut out, " ETH\n");
    proof {
        assert(out@ =~= notification_text(n@));
    }
    out
}

/// Every notification a run of records yields is addressed to the
/// target: nothing else is ever reported.
pub proof fn lemma_record_notifications_are_for_target(recs: Seq<RecordModel>, target: Seq<u8>)
    ensures
        forall|k: int| 0 <= k < notifications_of(recs, target).len()
            ==> #[trigger] notifications_of(recs, target)[k].recipient == target,
    decreases recs.len(),
{
    if recs.len() > 0 {
        lemma_record_notifications_are_for_target(recs.drop_last(), target);
    }
}

/// Every notification a whole feed yields is addressed to the target.
pub proof fn lemma_feed_notifications_are_for_target(items: Seq<ItemModel>, target: Seq<u8>)
    ensures
        forall|k: int| 0 <= k < feed_notifications(items, target).len()
            ==> #[trigger] feed_notifications(items, target)[k].recipient == target,
    decreases items.len(),
{
    if items.len() > 0 {
        lemma_feed_notifications_are_for_target(items.drop_last(), target);
        match items.last() {
            ItemModel::Records(rs) => {
                lemma_record_notifications_are_for_target(rs, target);
            },
            _ => {},
        }
    }
}

/// A failed item leaves the feed's notifications untouched: processing
/// with the item is processing without it. This is what makes per-item
/// faults recoverable rather than fatal.
pub proof fn lemma_faulty_item_skipped(items: Seq<ItemModel>, i: int, target: Seq<u8>)
    requires
        0 <= i < items.len(),
        !(items[i] is Records),
    ensures
        feed_notifications(items, target) == feed_notifications(items.remove(i), target),
    decreases items.len(),
{
    if i == items.len() - 1 {
        assert(items.remove(i) =~= items.drop_last());
        assert(item_notifications(items.last(), target) =~= Seq::<NotificationModel>::empty());
        assert(feed_notifications(items, target) =~= feed_notifications(items.drop_last(), target));
    } else {
        let sub = items.drop_last();
        lemma_faulty_item_skipped(sub, i, target);
        assert(items.remove(i).drop_last() =~= sub.remove(i));
        assert(items.remove(i).last() == items.last());
        assert(feed_notifications(items.remove(i), target) == feed_notifications(sub.remove(i), target)
            + item_notifications(items.last(), target));
    }
}

} // verus!
