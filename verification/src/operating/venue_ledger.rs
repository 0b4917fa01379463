//! Ledger receipts of a reconciled venue epoch: one reconciliation receipt for
//! the epoch, then one material event per order, position and execution, each
//! keyed by a digest of its identity so that a repeated epoch is idempotent.

use super::ledger_commands::{AutomaticCasePolicy, AutomaticLedgerEventCommand};
use super::venue::{
    VenueAccountSnapshot, VenueExecutionSnapshotV1, VenueOrderSnapshotV1, VenuePositionSnapshotV1,
    VenueSide, VenueSnapshot,
};
use crate::data_plane::{InstrumentId, SchemaVersion};
use crate::digest::{blake3_digest, blake3_hash, le_u128_from, le_u128_prefix, le_u64, push_le_u64, push_str};
use crate::ledger::{
    ActorId, ActorKind, CorrelationId, LedgerEventKind, LedgerEventStatus, LedgerFlags, SourceEventKey,
};
use crate::text::{append_decimal, decimal_text};
use vstd::prelude::*;
use vstd::string::*;

verus! {

/// Actor identity of the venue adapter.
pub const TRADELOCKER_ACTOR_ID: u64 = 20_001;

/// Display text of one item's fixed-point figures: its quantity, its price
/// and, for a position, its open profit and loss. The caller renders them.
#[derive(Clone, Debug)]
pub struct VenueFigures {
    pub quantity: String,
    pub price: String,
    pub money: String,
}

/// Figures of every item of an epoch in the epoch's order: open orders then
/// final orders, positions, executions.
#[derive(Clone, Debug)]
pub struct VenueEpochFigures {
    pub orders: Vec<VenueFigures>,
    pub positions: Vec<VenueFigures>,
    pub executions: Vec<VenueFigures>,
}

/// Display label of a side.
pub open spec fn side_label_spec(side: VenueSide) -> Seq<char> {
    match side {
        VenueSide::Buy => "BUY"@,
        VenueSide::Sell => "SELL"@,
        VenueSide::Unknown => "UNKNOWN"@,
    }
}

/// Milliseconds as nanoseconds when that is a positive `i64`, else the
/// fallback.
pub open spec fn millis_to_ns_spec(milliseconds: i64, fallback: i64) -> i64 {
    let ns = milliseconds * 1_000_000;
    if 0 < ns <= i64::MAX {
        ns as i64
    } else {
        fallback
    }
}

/// The bytes a venue receipt key is the digest of.
pub open spec fn ledger_key_bytes(namespace: Seq<char>, id: u64, material: Seq<u8>) -> Seq<u8> {
    vstd::utf8::encode_utf8("northstar-tradelocker-ledger-v1"@) + vstd::utf8::encode_utf8(namespace) + le_u64(id)
        + material
}

/// Key of a venue receipt: the first sixteen digest bytes, little-endian.
pub open spec fn ledger_key(namespace: Seq<char>, id: u64, material: Seq<u8>) -> u128 {
    le_u128_from(blake3_digest(ledger_key_bytes(namespace, id, material)), 0)
}

/// The bytes a lifecycle correlation is the digest of: the account and the
/// position when there is one, else the order.
pub open spec fn correlation_bytes(account_id: u64, position_id: u64, order_id: u64) -> Seq<u8> {
    vstd::utf8::encode_utf8("northstar-tradelocker-lifecycle-v1"@) + le_u64(account_id) + if position_id != 0 {
        vstd::utf8::encode_utf8("position"@) + le_u64(position_id)
    } else {
        vstd::utf8::encode_utf8("order"@) + le_u64(order_id)
    }
}

/// Correlation identity of a trade lifecycle.
pub open spec fn correlation_spec(account_id: u64, position_id: u64, order_id: u64) -> u128 {
    le_u128_from(blake3_digest(correlation_bytes(account_id, position_id, order_id)), 0)
}

/// Identity material of an order: status, creation time and filled quantity.
pub open spec fn order_material(order: VenueOrderSnapshotV1) -> Seq<u8> {
    vstd::utf8::encode_utf8(order.status@) + le_u64(order.created_ms as u64) + le_u64(
        order.filled_quantity_micros as u64,
    )
}

/// Identity material of a position: quantity, average price, open P&L and
/// opening time.
pub open spec fn position_material(position: VenuePositionSnapshotV1) -> Seq<u8> {
    le_u64(position.quantity_micros as u64) + le_u64(position.average_price_nanos as u64) + le_u64(
        position.unrealized_pnl_micros as u64,
    ) + le_u64(position.opened_ms as u64)
}

/// Identity material of an execution: its order, position and time.
pub open spec fn execution_material(execution: VenueExecutionSnapshotV1) -> Seq<u8> {
    le_u64(execution.order_id) + le_u64(execution.position_id) + le_u64(execution.created_ms as u64)
}

/// Number of objects the venue reported that the epoch could not place.
pub open spec fn unknown_count(snapshot: VenueSnapshot) -> nat {
    snapshot.unknown_orders@.len() + snapshot.unknown_positions@.len()
}

/// Body of the epoch receipt.
pub open spec fn epoch_body(snapshot: VenueSnapshot) -> Seq<char> {
    "TradeLocker coherent epoch "@ + decimal_text(snapshot.generation as nat) + ": "@ + decimal_text(
        snapshot.contracts@.len(),
    ) + " contracts, "@ + decimal_text(snapshot.quotes@.len()) + " quotes, "@ + decimal_text(
        snapshot.positions@.len(),
    ) + " positions, "@ + decimal_text(snapshot.open_orders@.len()) + " open orders, "@ + decimal_text(
        snapshot.executions@.len(),
    ) + " executions, "@ + decimal_text(unknown_count(snapshot)) + " unknown objects."@
}

/// Body of an order event.
pub open spec fn order_body(order: VenueOrderSnapshotV1, figures: VenueFigures) -> Seq<char> {
    "TradeLocker order "@ + decimal_text(order.id as nat) + " "@ + side_label_spec(order.side) + " "@
        + figures.quantity@ + " "@ + order.order_type@ + " @ "@ + figures.price@ + " / status "@
        + order.status@ + "."@
}

/// Body of a position event.
pub open spec fn position_body(position: VenuePositionSnapshotV1, figures: VenueFigures, currency: Seq<char>) -> Seq<
    char,
> {
    "TradeLocker position "@ + decimal_text(position.id as nat) + " "@ + side_label_spec(position.side) + " "@
        + figures.quantity@ + " @ "@ + figures.price@ + " / open P&L "@ + figures.money@ + " "@ + currency
        + "."@
}

/// Body of an execution event.
pub open spec fn execution_body(execution: VenueExecutionSnapshotV1, figures: VenueFigures) -> Seq<char> {
    "TradeLocker execution "@ + decimal_text(execution.id as nat) + " filled order "@ + decimal_text(
        execution.order_id as nat,
    ) + " / position "@ + decimal_text(execution.position_id as nat) + " / "@ + side_label_spec(execution.side)
        + " "@ + figures.quantity@ + " @ "@ + figures.price@ + "."@
}

/// `command` is a material venue event with these fields, received when it
/// happened, with no canonical range and schema one.
pub open spec fn venue_event(
    command: AutomaticLedgerEventCommand,
    key: u128,
    policy: AutomaticCasePolicy,
    correlation: u128,
    kind: LedgerEventKind,
    status: LedgerEventStatus,
    instrument: InstrumentId,
    account_id: u64,
    ts_event_ns: i64,
    body: Seq<char>,
) -> bool {
    &&& command.source_key.0 == key
    &&& command.case_policy == policy
    &&& command.correlation_id.0 == correlation
    &&& command.actor_id.0 == TRADELOCKER_ACTOR_ID
    &&& command.actor_kind == ActorKind::Venue
    &&& command.kind == kind
    &&& command.status == status
    &&& command.flags.0 == 1
    &&& command.instrument_id == instrument
    &&& command.account_id == account_id
    &&& command.ts_event_ns == ts_event_ns
    &&& command.ts_received_ns == ts_event_ns
    &&& command.canonical_sequences is None
    &&& command.schema_version.0 == 1
    &&& command.body@ == vstd::utf8::encode_utf8(body)
}

/// The reconciliation receipt of an epoch: an incident when the venue
/// reported objects the epoch could not place.
pub open spec fn epoch_event(command: AutomaticLedgerEventCommand, snapshot: VenueSnapshot, account_id: u64) -> bool {
    venue_event(
        command,
        ledger_key("epoch"@, snapshot.as_of_ns as u64, snapshot.config_fingerprint@),
        AutomaticCasePolicy::NoCase,
        0,
        LedgerEventKind::Reconciliation,
        if unknown_count(snapshot) == 0 {
            LedgerEventStatus::Accepted
        } else {
            LedgerEventStatus::Incident
        },
        InstrumentId(0),
        account_id,
        snapshot.as_of_ns,
        epoch_body(snapshot),
    )
}

/// The event of an order: pending while open, else accepted.
pub open spec fn order_event(
    command: AutomaticLedgerEventCommand,
    account_id: u64,
    as_of_ns: i64,
    order: VenueOrderSnapshotV1,
    figures: VenueFigures,
) -> bool {
    venue_event(
        command,
        ledger_key("order"@, order.id, order_material(order)),
        AutomaticCasePolicy::Correlate,
        correlation_spec(account_id, order.position_id, order.id),
        LedgerEventKind::Order,
        if order.is_open {
            LedgerEventStatus::Pending
        } else {
            LedgerEventStatus::Accepted
        },
        order.instrument,
        account_id,
        millis_to_ns_spec(order.created_ms, as_of_ns),
        order_body(order, figures),
    )
}

/// The event of a position.
pub open spec fn position_event(
    command: AutomaticLedgerEventCommand,
    account: VenueAccountSnapshot,
    as_of_ns: i64,
    position: VenuePositionSnapshotV1,
    figures: VenueFigures,
) -> bool {
    venue_event(
        command,
        ledger_key("position"@, position.id, position_material(position)),
        AutomaticCasePolicy::Correlate,
        correlation_spec(account.id, position.id, position.id),
        LedgerEventKind::Position,
        LedgerEventStatus::Observed,
        position.instrument,
        account.id,
        millis_to_ns_spec(position.opened_ms, as_of_ns),
        position_body(position, figures, account.currency@),
    )
}

/// The event of an execution.
pub open spec fn execution_event(
    command: AutomaticLedgerEventCommand,
    account_id: u64,
    as_of_ns: i64,
    execution: VenueExecutionSnapshotV1,
    figures: VenueFigures,
) -> bool {
    venue_event(
        command,
        ledger_key("execution"@, execution.id, execution_material(execution)),
        AutomaticCasePolicy::Correlate,
        correlation_spec(account_id, execution.position_id, execution.order_id),
        LedgerEventKind::Fill,
        LedgerEventStatus::Accepted,
        execution.instrument,
        account_id,
        millis_to_ns_spec(execution.created_ms, as_of_ns),
        execution_body(execution, figures),
    )
}

/// The `k`-th order of an epoch: open orders first, then final ones.
pub open spec fn order_at(snapshot: VenueSnapshot, k: int) -> VenueOrderSnapshotV1 {
    if k < snapshot.open_orders@.len() {
        snapshot.open_orders@[k]
    } else {
        snapshot.final_orders@[k - snapshot.open_orders@.len()]
    }
}

/// Number of orders of an epoch.
pub open spec fn order_count(snapshot: VenueSnapshot) -> int {
    (snapshot.open_orders@.len() + snapshot.final_orders@.len()) as int
}

/// Figures that match an epoch item for item.
pub open spec fn figures_fit(snapshot: VenueSnapshot, figures: VenueEpochFigures) -> bool {
    &&& figures.orders@.len() == order_count(snapshot)
    &&& figures.positions@.len() == snapshot.positions@.len()
    &&& figures.executions@.len() == snapshot.executions@.len()
}

/// The events of an epoch, in order: the receipt, the orders, the positions,
/// the executions. No account means no events.
pub open spec fn venue_events_follow(
    events: Seq<AutomaticLedgerEventCommand>,
    snapshot: VenueSnapshot,
    figures: VenueEpochFigures,
) -> bool {
    match snapshot.account {
        None => events.len() == 0,
        Some(account) => {
            let orders = order_count(snapshot);
            let positions = snapshot.positions@.len() as int;
            &&& events.len() == 1 + orders + positions + snapshot.executions@.len()
            &&& epoch_event(events[0], snapshot, account.id)
            &&& forall|k: int|
                1 <= k < 1 + orders ==> order_event(
                    #[trigger] events[k],
                    account.id,
                    snapshot.as_of_ns,
                    order_at(snapshot, k - 1),
                    figures.orders@[k - 1],
                )
            &&& forall|k: int|
                1 + orders <= k < 1 + orders + positions ==> position_event(
                    #[trigger] events[k],
                    account,
                    snapshot.as_of_ns,
                    snapshot.positions@[k - 1 - orders],
                    figures.positions@[k - 1 - orders],
                )
            &&& forall|k: int|
                1 + orders + positions <= k < events.len() ==> execution_event(
                    #[trigger] events[k],
                    account.id,
                    snapshot.as_of_ns,
                    snapshot.executions@[k - 1 - orders - positions],
                    figures.executions@[k - 1 - orders - positions],
                )
        },
    }
}

/// A lifecycle keeps its correlation whatever order touches a known
/// position: with a position, the order does not enter the digest.
pub proof fn lemma_correlation_prefers_position(account_id: u64, position_id: u64, first_order: u64, second_order: u64)
    requires
        position_id != 0,
    ensures
        correlation_spec(account_id, position_id, first_order) == correlation_spec(
            account_id,
            position_id,
            second_order,
        ),
{
}

fn side_label(side: VenueSide) -> (label: &'static str)
    ensures
        label@ == side_label_spec(side),
{
    match side {
        VenueSide::Buy => "BUY",
        VenueSide::Sell => "SELL",
        VenueSide::Unknown => "UNKNOWN",
    }
}

fn millis_to_ns(milliseconds: i64, fallback: i64) -> (ns: i64)
    ensures
        ns == millis_to_ns_spec(milliseconds, fallback),
{
    match milliseconds.checked_mul(1_000_000) {
        Some(value) => if value > 0 {
            value
        } else {
            fallback
        },
        None => fallback,
    }
}

/// Key of a venue receipt.
fn ledger_key_of(namespace: &str, id: u64, material: &Vec<u8>) -> (key: SourceEventKey)
    ensures
        key.0 == ledger_key(namespace@, id, material@),
{
    let mut bytes: Vec<u8> = Vec::new();
    push_str(&mut bytes, "northstar-tradelocker-ledger-v1");
    push_str(&mut bytes, namespace);
    push_le_u64(&mut bytes, id);
    let mut i: usize = 0;
    let ghost start = bytes@;
    while i < material.len()
        invariant
            0 <= i <= material@.len(),
            bytes@ == start + material@.subrange(0, i as int),
        decreases material@.len() - i,
    {
        bytes.push(material[i]);
        proof {
            assert(bytes@ =~= start + material@.subrange(0, i + 1));
        }
        i = i + 1;
    }
    proof {
        assert(material@.subrange(0, material@.len() as int) =~= material@);
        assert(bytes@ =~= ledger_key_bytes(namespace@, id, material@));
    }
    let digest = blake3_hash(bytes.as_slice());
    SourceEventKey(le_u128_prefix(&digest))
}

/// Correlation identity of a trade lifecycle on `account_id`: by position
/// when the venue names one, else by order.
pub fn lifecycle_correlation(account_id: u64, position_id: u64, order_id: u64) -> (correlation: CorrelationId)
    ensures
        correlation.0 == correlation_spec(account_id, position_id, order_id),
{
    let mut bytes: Vec<u8> = Vec::new();
    push_str(&mut bytes, "northstar-tradelocker-lifecycle-v1");
    push_le_u64(&mut bytes, account_id);
    if position_id != 0 {
        push_str(&mut bytes, "position");
        push_le_u64(&mut bytes, position_id);
    } else {
        push_str(&mut bytes, "order");
        push_le_u64(&mut bytes, order_id);
    }
    proof {
        assert(bytes@ =~= correlation_bytes(account_id, position_id, order_id));
    }
    let digest = blake3_hash(bytes.as_slice());
    CorrelationId(le_u128_prefix(&digest))
}

/// A material venue event.
fn command(
    source_key: SourceEventKey,
    case_policy: AutomaticCasePolicy,
    correlation_id: CorrelationId,
    kind: LedgerEventKind,
    status: LedgerEventStatus,
    instrument_id: InstrumentId,
    account_id: u64,
    ts_event_ns: i64,
    body: String,
) -> (command: AutomaticLedgerEventCommand)
    ensures
        venue_event(
            command,
            source_key.0,
            case_policy,
            correlation_id.0,
            kind,
            status,
            instrument_id,
            account_id,
            ts_event_ns,
            body@,
        ),
{
    let mut bytes: Vec<u8> = Vec::new();
    push_str(&mut bytes, body.as_str());
    AutomaticLedgerEventCommand {
        source_key,
        case_policy,
        correlation_id,
        actor_id: ActorId(TRADELOCKER_ACTOR_ID),
        actor_kind: ActorKind::Venue,
        kind,
        status,
        flags: LedgerFlags::material(),
        instrument_id,
        account_id,
        ts_event_ns,
        ts_received_ns: ts_event_ns,
        canonical_sequences: None,
        schema_version: SchemaVersion(1),
        body: bytes,
    }
}

fn epoch_command(snapshot: &VenueSnapshot, account_id: u64) -> (event: AutomaticLedgerEventCommand)
    requires
        unknown_count(*snapshot) <= usize::MAX,
    ensures
        epoch_event(event, *snapshot, account_id),
{
    let unknown = snapshot.unknown_orders.len() + snapshot.unknown_positions.len();
    let mut material: Vec<u8> = Vec::new();
    let mut i: usize = 0;
    while i < 16
        invariant
            0 <= i <= 16,
            material@ == snapshot.config_fingerprint@.subrange(0, i as int),
        decreases 16 - i,
    {
        material.push(snapshot.config_fingerprint[i]);
        proof {
            assert(material@ =~= snapshot.config_fingerprint@.subrange(0, i + 1));
        }
        i = i + 1;
    }
    proof {
        assert(material@ =~= snapshot.config_fingerprint@);
    }
    let mut body = "TradeLocker coherent epoch ".to_owned();
    append_decimal(&mut body, snapshot.generation);
    body.append(": ");
    append_decimal(&mut body, snapshot.contracts.len() as u64);
    body.append(" contracts, ");
    append_decimal(&mut body, snapshot.quotes.len() as u64);
    body.append(" quotes, ");
    append_decimal(&mut body, snapshot.positions.len() as u64);
    body.append(" positions, ");
    append_decimal(&mut body, snapshot.open_orders.len() as u64);
    body.append(" open orders, ");
    append_decimal(&mut body, snapshot.executions.len() as u64);
    body.append(" executions, ");
    append_decimal(&mut body, unknown as u64);
    body.append(" unknown objects.");
    proof {
        assert(body@ =~= epoch_body(*snapshot));
    }
    command(
        ledger_key_of("epoch", snapshot.as_of_ns as u64, &material),
        AutomaticCasePolicy::NoCase,
        CorrelationId(0),
        LedgerEventKind::Reconciliation,
        if unknown == 0 {
            LedgerEventStatus::Accepted
        } else {
            LedgerEventStatus::Incident
        },
        InstrumentId(0),
        account_id,
        snapshot.as_of_ns,
        body,
    )
}

fn order_command(account_id: u64, as_of_ns: i64, order: &VenueOrderSnapshotV1, figures: &VenueFigures) -> (event:
    AutomaticLedgerEventCommand)
    ensures
        order_event(event, account_id, as_of_ns, *order, *figures),
{
    let mut material: Vec<u8> = Vec::new();
    push_str(&mut material, order.status.as_str());
    push_le_u64(&mut material, order.created_ms as u64);
    push_le_u64(&mut material, order.filled_quantity_micros as u64);
    proof {
        assert(material@ =~= order_material(*order));
    }
    let mut body = "TradeLocker order ".to_owned();
    append_decimal(&mut body, order.id);
    body.append(" ");
    body.append(side_label(order.side));
    body.append(" ");
    body.append(figures.quantity.as_str());
    body.append(" ");
    body.append(order.order_type.as_str());
    body.append(" @ ");
    body.append(figures.price.as_str());
    body.append(" / status ");
    body.append(order.status.as_str());
    body.append(".");
    proof {
        assert(body@ =~= order_body(*order, *figures));
    }
    command(
        ledger_key_of("order", order.id, &material),
        AutomaticCasePolicy::Correlate,
        lifecycle_correlation(account_id, order.position_id, order.id),
        LedgerEventKind::Order,
        if order.is_open {
            LedgerEventStatus::Pending
        } else {
            LedgerEventStatus::Accepted
        },
        order.instrument,
        account_id,
        millis_to_ns(order.created_ms, as_of_ns),
        body,
    )
}

fn position_command(
    account: &VenueAccountSnapshot,
    as_of_ns: i64,
    position: &VenuePositionSnapshotV1,
    figures: &VenueFigures,
) -> (event: AutomaticLedgerEventCommand)
    ensures
        position_event(event, *account, as_of_ns, *position, *figures),
{
    let mut material: Vec<u8> = Vec::new();
    push_le_u64(&mut material, position.quantity_micros as u64);
    push_le_u64(&mut material, position.average_price_nanos as u64);
    push_le_u64(&mut material, position.unrealized_pnl_micros as u64);
    push_le_u64(&mut material, position.opened_ms as u64);
    proof {
        assert(material@ =~= position_material(*position));
    }
    let mut body = "TradeLocker position ".to_owned();
    append_decimal(&mut body, position.id);
    body.append(" ");
    body.append(side_label(position.side));
    body.append(" ");
    body.append(figures.quantity.as_str());
    body.append(" @ ");
    body.append(figures.price.as_str());
    body.append(" / open P&L ");
    body.append(figures.money.as_str());
    body.append(" ");
    body.append(account.currency.as_str());
    body.append(".");
    proof {
        assert(body@ =~= position_body(*position, *figures, account.currency@));
    }
    command(
        ledger_key_of("position", position.id, &material),
        AutomaticCasePolicy::Correlate,
        lifecycle_correlation(account.id, position.id, position.id),
        LedgerEventKind::Position,
        LedgerEventStatus::Observed,
        position.instrument,
        account.id,
        millis_to_ns(position.opened_ms, as_of_ns),
        body,
    )
}

fn execution_command(
    account_id: u64,
    as_of_ns: i64,
    execution: &VenueExecutionSnapshotV1,
    figures: &VenueFigures,
) -> (event: AutomaticLedgerEventCommand)
    ensures
        execution_event(event, account_id, as_of_ns, *execution, *figures),
{
    let mut material: Vec<u8> = Vec::new();
    push_le_u64(&mut material, execution.order_id);
    push_le_u64(&mut material, execution.position_id);
    push_le_u64(&mut material, execution.created_ms as u64);
    proof {
        assert(material@ =~= execution_material(*execution));
    }
    let mut body = "TradeLocker execution ".to_owned();
    append_decimal(&mut body, execution.id);
    body.append(" filled order ");
    append_decimal(&mut body, execution.order_id);
    body.append(" / position ");
    append_decimal(&mut body, execution.position_id);
    body.append(" / ");
    body.append(side_label(execution.side));
    body.append(" ");
    body.append(figures.quantity.as_str());
    body.append(" @ ");
    body.append(figures.price.as_str());
    body.append(".");
    proof {
        assert(body@ =~= execution_body(*execution, *figures));
    }
    command(
        ledger_key_of("execution", execution.id, &material),
        AutomaticCasePolicy::Correlate,
        lifecycle_correlation(account_id, execution.position_id, execution.order_id),
        LedgerEventKind::Fill,
        LedgerEventStatus::Accepted,
        execution.instrument,
        account_id,
        millis_to_ns(execution.created_ms, as_of_ns),
        body,
    )
}

/// The Ledger events of a reconciled epoch: nothing without an account, else
/// the epoch receipt followed by one event per open order, final order,
/// position and execution, in that order. `figures` carries each item's
/// rendered quantity, price and P&L text.
pub fn venue_ledger_events(snapshot: &VenueSnapshot, figures: &VenueEpochFigures) -> (events: Vec<
    AutomaticLedgerEventCommand,
>)
    requires
        figures_fit(*snapshot, *figures),
        unknown_count(*snapshot) <= usize::MAX,
    ensures
        venue_events_follow(events@, *snapshot, *figures),
{
    let account = match &snapshot.account {
        None => {
            return Vec::new();
        },
        Some(account) => account,
    };
    let ghost orders = order_count(*snapshot);
    let ghost positions = snapshot.positions@.len() as int;
    let mut events: Vec<AutomaticLedgerEventCommand> = Vec::new();
    events.push(epoch_command(snapshot, account.id));
    let open = snapshot.open_orders.len();
    let mut i: usize = 0;
    while i < open
        invariant
            open == snapshot.open_orders@.len(),
            figures_fit(*snapshot, *figures),
            snapshot.account == Some(*account),
            0 <= i <= open,
            events@.len() == 1 + i,
            epoch_event(events@[0], *snapshot, account.id),
            forall|k: int|
                1 <= k < 1 + i ==> order_event(
                    #[trigger] events@[k],
                    account.id,
                    snapshot.as_of_ns,
                    order_at(*snapshot, k - 1),
                    figures.orders@[k - 1],
                ),
        decreases open - i,
    {
        let event = order_command(account.id, snapshot.as_of_ns, &snapshot.open_orders[i], &figures.orders[i]);
        events.push(event);
        i = i + 1;
    }
    let closed = snapshot.final_orders.len();
    let figured = figures.orders.len();
    let mut j: usize = 0;
    while j < closed
        invariant
            open == snapshot.open_orders@.len(),
            closed == snapshot.final_orders@.len(),
            figured == figures.orders@.len(),
            orders == order_count(*snapshot),
            figures_fit(*snapshot, *figures),
            snapshot.account == Some(*account),
            0 <= j <= closed,
            events@.len() == 1 + open + j,
            epoch_event(events@[0], *snapshot, account.id),
            forall|k: int|
                1 <= k < 1 + open + j ==> order_event(
                    #[trigger] events@[k],
                    account.id,
                    snapshot.as_of_ns,
                    order_at(*snapshot, k - 1),
                    figures.orders@[k - 1],
                ),
        decreases closed - j,
    {
        let event = order_command(
            account.id,
            snapshot.as_of_ns,
            &snapshot.final_orders[j],
            &figures.orders[open + j],
        );
        events.push(event);
        j = j + 1;
    }
    let held = snapshot.positions.len();
    let mut p: usize = 0;
    while p < held
        invariant
            open + closed == orders,
            orders == order_count(*snapshot),
            positions == snapshot.positions@.len(),
            held == positions,
            figures_fit(*snapshot, *figures),
            snapshot.account == Some(*account),
            0 <= p <= held,
            events@.len() == 1 + orders + p,
            epoch_event(events@[0], *snapshot, account.id),
            forall|k: int|
                1 <= k < 1 + orders ==> order_event(
                    #[trigger] events@[k],
                    account.id,
                    snapshot.as_of_ns,
                    order_at(*snapshot, k - 1),
                    figures.orders@[k - 1],
                ),
            forall|k: int|
                1 + orders <= k < 1 + orders + p ==> position_event(
                    #[trigger] events@[k],
                    *account,
                    snapshot.as_of_ns,
                    snapshot.positions@[k - 1 - orders],
                    figures.positions@[k - 1 - orders],
                ),
        decreases held - p,
    {
        let event = position_command(account, snapshot.as_of_ns, &snapshot.positions[p], &figures.positions[p]);
        events.push(event);
        p = p + 1;
    }
    let filled = snapshot.executions.len();
    let mut e: usize = 0;
    while e < filled
        invariant
            open + closed == orders,
            orders == order_count(*snapshot),
            positions == snapshot.positions@.len(),
            held == positions,
            filled == snapshot.executions@.len(),
            figures_fit(*snapshot, *figures),
            snapshot.account == Some(*account),
            0 <= e <= filled,
            events@.len() == 1 + orders + positions + e,
            epoch_event(events@[0], *snapshot, account.id),
            forall|k: int|
                1 <= k < 1 + orders ==> order_event(
                    #[trigger] events@[k],
                    account.id,
                    snapshot.as_of_ns,
                    order_at(*snapshot, k - 1),
                    figures.orders@[k - 1],
                ),
            forall|k: int|
                1 + orders <= k < 1 + orders + positions ==> position_event(
                    #[trigger] events@[k],
                    *account,
                    snapshot.as_of_ns,
                    snapshot.positions@[k - 1 - orders],
                    figures.positions@[k - 1 - orders],
                ),
            forall|k: int|
                1 + orders + positions <= k < 1 + orders + positions + e ==> execution_event(
                    #[trigger] events@[k],
                    account.id,
                    snapshot.as_of_ns,
                    snapshot.executions@[k - 1 - orders - positions],
                    figures.executions@[k - 1 - orders - positions],
                ),
        decreases filled - e,
    {
        let event = execution_command(
            account.id,
            snapshot.as_of_ns,
            &snapshot.executions[e],
            &figures.executions[e],
        );
        events.push(event);
        e = e + 1;
    }
    events
}

} // verus!
