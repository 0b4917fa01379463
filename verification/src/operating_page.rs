//! Pages of the operating window and the domains each one redraws for.

use crate::operating::snapshot::DomainMask;
use vstd::prelude::*;

verus! {

/// A page of the operating window.
#[derive(Clone, Copy, Debug, PartialEq, Eq, Structural)]
pub enum OperatingPage {
    Desk,
    Macro,
    Fund,
    Systems,
    Ledger,
}

/// Title of a page.
pub open spec fn page_label_spec(page: OperatingPage) -> Seq<char> {
    match page {
        OperatingPage::Desk => "Desk"@,
        OperatingPage::Macro => "Macro"@,
        OperatingPage::Fund => "Fund"@,
        OperatingPage::Systems => "Systems"@,
        OperatingPage::Ledger => "Ledger"@,
    }
}

/// Bit of a single domain in a mask.
pub open spec fn has_bit(changed: DomainMask, bit: u8) -> bool {
    changed.bits_spec() & bit == bit
}

/// Whether a page redraws after `changed`: every page follows the desk; the
/// desk page also follows macro, fund and ledger; the other pages follow
/// their own domain only.
pub open spec fn wants_spec(page: OperatingPage, changed: DomainMask) -> bool {
    if has_bit(changed, 1) {
        true
    } else {
        match page {
            OperatingPage::Desk => has_bit(changed, 2) || has_bit(changed, 4) || has_bit(changed, 16),
            OperatingPage::Macro => has_bit(changed, 2),
            OperatingPage::Fund => has_bit(changed, 4),
            OperatingPage::Systems => has_bit(changed, 8),
            OperatingPage::Ledger => has_bit(changed, 16),
        }
    }
}

impl OperatingPage {
    /// Every page in navigation order.
    pub fn all() -> (pages: [OperatingPage; 5])
        ensures
            pages@ == seq![
                OperatingPage::Desk,
                OperatingPage::Macro,
                OperatingPage::Fund,
                OperatingPage::Systems,
                OperatingPage::Ledger,
            ],
    {
        [OperatingPage::Desk, OperatingPage::Macro, OperatingPage::Fund, OperatingPage::Systems, OperatingPage::Ledger]
    }

    /// Title of the page.
    pub fn label(self) -> (label: &'static str)
        ensures
            label@ == page_label_spec(self),
    {
        match self {
            OperatingPage::Desk => "Desk",
            OperatingPage::Macro => "Macro",
            OperatingPage::Fund => "Fund",
            OperatingPage::Systems => "Systems",
            OperatingPage::Ledger => "Ledger",
        }
    }

    /// Whether the page redraws after the domains in `changed` changed.
    pub fn wants(self, changed: DomainMask) -> (redraw: bool)
        ensures
            redraw == wants_spec(self, changed),
    {
        if changed.contains(DomainMask::desk()) {
            return true;
        }
        match self {
            OperatingPage::Desk => changed.contains(DomainMask::macros()) || changed.contains(DomainMask::fund())
                || changed.contains(DomainMask::ledger()),
            OperatingPage::Macro => changed.contains(DomainMask::macros()),
            OperatingPage::Fund => changed.contains(DomainMask::fund()),
            OperatingPage::Systems => changed.contains(DomainMask::systems()),
            OperatingPage::Ledger => changed.contains(DomainMask::ledger()),
        }
    }
}

/// A page never redraws for an empty change, and every page redraws when the
/// desk changed.
pub proof fn lemma_wants_desk_and_nothing(page: OperatingPage, changed: DomainMask)
    ensures
        changed.bits_spec() == 0 ==> !wants_spec(page, changed),
        has_bit(changed, 1) ==> wants_spec(page, changed),
{
    let bits = changed.bits_spec();
    assert(bits == 0 ==> (bits & 1 != 1 && bits & 2 != 2 && bits & 4 != 4 && bits & 8 != 8 && bits & 16 != 16)) by (bit_vector);
}

} // verus!
