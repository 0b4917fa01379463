use northstar_index_fund::data_plane::{JournalSequence, ParticipantClass, ReceiptId};
use northstar_index_fund::office::MacroContextCell;
use northstar_index_fund::operating::macro_office::PositioningPointSnapshot;
use northstar_index_fund::operating::market::projector::TimeQuality;

#[test]
fn hot_rows_remain_compact() {
    assert!(std::mem::size_of::<MacroContextCell>() <= 64);
}

#[test]
fn positioning_net_is_long_minus_short() {
    let point = PositioningPointSnapshot {
        report_date_ns: 1,
        received_ns: 2,
        effective_ns: 3,
        sequence: JournalSequence(4),
        receipt_id: ReceiptId(5),
        participant: ParticipantClass::AssetManager,
        long: 120_000,
        short: 150_500,
        spread: 7,
        open_interest: 300_000,
        corrected: false,
        time_quality: TimeQuality::VerifiedPublication,
    };
    assert_eq!(point.net(), -30_500);
    let flat = PositioningPointSnapshot { long: 9, short: 9, ..point };
    assert_eq!(flat.net(), 0);
}
