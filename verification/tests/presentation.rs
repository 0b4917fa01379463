use northstar_index_fund::data_plane::{instruments, InstrumentId};
use northstar_index_fund::ledger::{LedgerEntryId, SourceEventKey};
use northstar_index_fund::operating::market::projector::TimeQuality;
use northstar_index_fund::operating::operator_ledger::{command_key, OperatorEntryKind, OperatorMutation};
use northstar_index_fund::operating::presentation::{
    combined_state, instrument_label, replay_label, replay_state, time_quality_label,
};
use northstar_index_fund::operating::snapshot::{Availability, OperatingMode};

#[test]
fn governed_indices_have_ticker_labels() {
    assert_eq!(instrument_label(instruments::us100()), "US100");
    assert_eq!(instrument_label(instruments::jp225()), "JP225");
    assert_eq!(instrument_label(InstrumentId(0)), "UNASSIGNED");
    assert_eq!(instrument_label(InstrumentId(99)), "UNASSIGNED");
}

#[test]
fn combined_state_needs_both_values() {
    assert_eq!(combined_state(Availability::Live, Availability::Ready), Availability::Ready);
    assert_eq!(combined_state(Availability::Live, Availability::NotConfigured), Availability::AwaitingFirstReceipt);
    assert_eq!(combined_state(Availability::Disconnected, Availability::Live), Availability::Invalid);
    assert_eq!(combined_state(Availability::NotEntitled, Availability::Invalid), Availability::Invalid);
}

#[test]
fn replay_reads_by_mode() {
    assert_eq!(replay_label(OperatingMode::OfflineReplay), "exact / offline");
    assert_eq!(replay_label(OperatingMode::Paper), "paper / journaled");
    assert_eq!(replay_state(OperatingMode::OfflineReplay), Availability::Replaying);
    assert_eq!(replay_state(OperatingMode::Live), Availability::Ready);
    assert_eq!(time_quality_label(TimeQuality::ProviderDelayed), "provider-delayed observation");
}

#[test]
fn operator_command_key_digests_every_field() {
    let key = command_key(10, 7, OperatorEntryKind::Plan, OperatorMutation::Amend(LedgerEntryId(3)), b"note");
    let mut hasher = blake3::Hasher::new();
    hasher.update(b"northstar-operator-entry-v2");
    hasher.update(&10i64.to_le_bytes());
    hasher.update(&7u64.to_le_bytes());
    hasher.update(&[1, 2]);
    hasher.update(&3u64.to_le_bytes());
    hasher.update(b"note");
    let mut prefix = [0u8; 16];
    prefix.copy_from_slice(&hasher.finalize().as_bytes()[..16]);
    assert_eq!(key, SourceEventKey(u128::from_le_bytes(prefix)));
    assert_ne!(key, command_key(10, 8, OperatorEntryKind::Plan, OperatorMutation::Amend(LedgerEntryId(3)), b"note"));
    assert_ne!(key, command_key(10, 7, OperatorEntryKind::Plan, OperatorMutation::Amend(LedgerEntryId(3)), b"notes"));
    assert_ne!(key.0, 0);
}
