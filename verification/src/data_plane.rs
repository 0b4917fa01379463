//! Canonical identities, bars and the versioned reference session calendar.

pub mod instruments;
pub mod providers;

use vstd::prelude::*;

verus! {

/// Catalog instrument identity; zero is unknown.
#[derive(Clone, Copy, Debug, Default, PartialEq, Eq, Hash, PartialOrd, Ord, Structural)]
pub struct InstrumentId(pub u32);

impl InstrumentId {
    /// The unknown identity.
    pub fn unknown() -> (id: InstrumentId)
        ensures
            id.0 == 0,
    {
        InstrumentId(0)
    }

    pub fn get(self) -> (value: u32)
        ensures
            value == self.0,
    {
        self.0
    }
}


/// Committed journal position; zero is unknown.
#[derive(Clone, Copy, Debug, Default, PartialEq, Eq, Hash, PartialOrd, Ord, Structural)]
pub struct JournalSequence(pub u64);

impl JournalSequence {
    pub fn get(self) -> (value: u64)
        ensures
            value == self.0,
    {
        self.0
    }
}

/// Identity of a provider receipt.
#[derive(Clone, Copy, Debug, Default, PartialEq, Eq, Hash, PartialOrd, Ord, Structural)]
pub struct ReceiptId(pub u64);

/// Trader class of a futures positioning report.
#[derive(Clone, Copy, Debug, PartialEq, Eq, Hash, Structural)]
pub enum ParticipantClass {
    Dealer,
    AssetManager,
    LeveragedFunds,
    OtherReportables,
    NonReportable,
}

/// Version of a structural derivation; zero is unknown.
#[derive(Clone, Copy, Debug, Default, PartialEq, Eq, Hash, PartialOrd, Ord, Structural)]
pub struct DerivationVersion(pub u32);

impl DerivationVersion {
    pub fn get(self) -> (value: u32)
        ensures
            value == self.0,
    {
        self.0
    }
}

/// Identity of a versioned reference session calendar.
#[derive(Clone, Copy, Debug, Default, PartialEq, Eq, Hash, PartialOrd, Ord, Structural)]
pub struct CalendarId(pub u32);

/// Version of the instrument catalog a calendar was frozen against.
#[derive(Clone, Copy, Debug, Default, PartialEq, Eq, Hash, PartialOrd, Ord, Structural)]
pub struct CatalogVersion(pub u32);

/// Provider identity; zero is unknown.
#[derive(Clone, Copy, Debug, Default, PartialEq, Eq, Hash, PartialOrd, Ord, Structural)]
pub struct SourceId(pub u16);

/// Version of a stored record layout; zero is unknown.
#[derive(Clone, Copy, Debug, Default, PartialEq, Eq, Hash, PartialOrd, Ord, Structural)]
pub struct SchemaVersion(pub u16);

impl SchemaVersion {
    pub fn get(self) -> (value: u16)
        ensures
            value == self.0,
    {
        self.0
    }
}

/// Family of a canonical event.
#[derive(Clone, Copy, Debug, PartialEq, Eq, Hash, Structural)]
pub enum EventKind {
    IndexValue,
    VenueQuote,
    ExternalBar,
    MacroObservation,
    PositioningObservation,
    MacroRelease,
    SourceDocument,
}

/// Provider stream identity; zero is unknown.
#[derive(Clone, Copy, Debug, Default, PartialEq, Eq, Hash, PartialOrd, Ord, Structural)]
pub struct StreamId(pub u16);

/// Nanoseconds in one minute.
pub const MINUTE_NS: i64 = 60_000_000_000;

/// Canonical bar timeframes, in slot order.
#[derive(Clone, Copy, Debug, PartialEq, Eq, Hash, PartialOrd, Ord, Structural)]
pub enum Timeframe {
    M4,
    M20,
    H2,
    H4,
}

/// Wire code of a timeframe (1 for M4 up to 4 for H4).
pub open spec fn timeframe_code_spec(timeframe: Timeframe) -> u16 {
    match timeframe {
        Timeframe::M4 => 1,
        Timeframe::M20 => 2,
        Timeframe::H2 => 3,
        Timeframe::H4 => 4,
    }
}

/// The timeframe a wire code names, if any.
pub open spec fn timeframe_from_code_spec(code: u16) -> Option<Timeframe> {
    if code == 1 {
        Some(Timeframe::M4)
    } else if code == 2 {
        Some(Timeframe::M20)
    } else if code == 3 {
        Some(Timeframe::H2)
    } else if code == 4 {
        Some(Timeframe::H4)
    } else {
        None
    }
}

/// Length of one bar of a timeframe, in nanoseconds.
pub open spec fn duration_spec(timeframe: Timeframe) -> i64 {
    match timeframe {
        Timeframe::M4 => 240_000_000_000,
        Timeframe::M20 => 1_200_000_000_000,
        Timeframe::H2 => 7_200_000_000_000,
        Timeframe::H4 => 14_400_000_000_000,
    }
}

impl Timeframe {
    /// Length of one bar of this timeframe, in nanoseconds.
    pub fn duration_ns(self) -> (duration: i64)
        ensures
            duration == duration_spec(self),
            duration > 0,
    {
        match self {
            Timeframe::M4 => 4 * MINUTE_NS,
            Timeframe::M20 => 20 * MINUTE_NS,
            Timeframe::H2 => 120 * MINUTE_NS,
            Timeframe::H4 => 240 * MINUTE_NS,
        }
    }

    /// Wire code of this timeframe.
    pub fn code(self) -> (code: u16)
        ensures
            code == timeframe_code_spec(self),
    {
        match self {
            Timeframe::M4 => 1,
            Timeframe::M20 => 2,
            Timeframe::H2 => 3,
            Timeframe::H4 => 4,
        }
    }

    /// Decodes a wire code.
    pub fn from_code(code: u16) -> (timeframe: Option<Timeframe>)
        ensures
            timeframe == timeframe_from_code_spec(code),
    {
        if code == 1 {
            Some(Timeframe::M4)
        } else if code == 2 {
            Some(Timeframe::M20)
        } else if code == 3 {
            Some(Timeframe::H2)
        } else if code == 4 {
            Some(Timeframe::H4)
        } else {
            None
        }
    }
}

/// Decoding a timeframe's code gives the timeframe back.
pub proof fn lemma_timeframe_code_round_trip(timeframe: Timeframe)
    ensures
        timeframe_from_code_spec(timeframe_code_spec(timeframe)) == Some(timeframe),
{
}

/// A committed canonical OHLC bar in fixed-point prices.
#[derive(Clone, Copy, Debug, Default, PartialEq, Eq, Hash, Structural)]
pub struct CanonicalBar {
    pub ts_open_ns: i64,
    pub ts_close_ns: i64,
    pub open: i64,
    pub high: i64,
    pub low: i64,
    pub close: i64,
    pub first_sequence: u64,
    pub last_sequence: u64,
    pub instrument_id: u32,
    pub observation_count: u32,
    pub revision: u16,
    pub derivation_version: u32,
    pub timeframe: u16,
    pub flags: u16,
    pub reserved: u32,
}

/// Segment of a trading day a session describes.
#[derive(Clone, Copy, Debug, PartialEq, Eq, Hash, Structural)]
pub enum SessionSegment {
    MainReference,
    Extended,
}

/// One scheduled session of one instrument: `[open_ns, close_ns)`.
#[derive(Clone, Copy, Debug, PartialEq, Eq, Hash, Structural)]
pub struct Session {
    pub instrument: InstrumentId,
    pub open_ns: i64,
    pub close_ns: i64,
    pub segment: SessionSegment,
    pub flags: u32,
}

/// Whether `session` is the `segment` session of `instrument` holding `at_ns`.
pub open spec fn session_holds(
    session: Session,
    instrument: InstrumentId,
    at_ns: i64,
    segment: SessionSegment,
) -> bool {
    &&& session.instrument == instrument
    &&& session.segment == segment
    &&& session.open_ns <= at_ns < session.close_ns
}

/// Two sessions of the same instrument and segment share a moment.
pub open spec fn sessions_overlap(a: Session, b: Session) -> bool {
    &&& a.instrument == b.instrument
    &&& a.segment == b.segment
    &&& a.open_ns < b.close_ns
    &&& b.open_ns < a.close_ns
}

/// The sessions a calendar accepts: each is non-empty and no two of the same
/// instrument and segment overlap.
pub open spec fn calendar_sessions_valid(sessions: Seq<Session>) -> bool {
    &&& forall|i: int| 0 <= i < sessions.len() ==> #[trigger] sessions[i].open_ns < sessions[i].close_ns
    &&& forall|i: int, j: int|
        0 <= i < sessions.len() && 0 <= j < sessions.len() && i != j ==> !sessions_overlap(
            #[trigger] sessions[i],
            #[trigger] sessions[j],
        )
}

/// Why a calendar was refused.
#[derive(Clone, Copy, Debug, PartialEq, Eq, Structural)]
pub enum CalendarError {
    EmptySession { index: usize },
    OverlappingSessions { first: usize, second: usize },
}

/// The first session at or after `j`, other than `i`, that overlaps
/// session `i`.
pub open spec fn first_overlap(sessions: Seq<Session>, i: int, j: int) -> Option<int>
    decreases sessions.len() - j,
{
    if j < 0 || j >= sessions.len() {
        None
    } else if j != i && sessions_overlap(sessions[i], sessions[j]) {
        Some(j)
    } else {
        first_overlap(sessions, i, j + 1)
    }
}

/// The refusal a calendar gives, scanning sessions from `i` in order: the
/// first empty session, or the first session that overlaps another, with
/// the first session it overlaps.
pub open spec fn calendar_problem(sessions: Seq<Session>, i: int) -> Option<CalendarError>
    decreases sessions.len() - i,
{
    if i < 0 || i >= sessions.len() {
        None
    } else if sessions[i].open_ns >= sessions[i].close_ns {
        Some(CalendarError::EmptySession { index: i as usize })
    } else {
        match first_overlap(sessions, i, 0) {
            Some(j) => Some(CalendarError::OverlappingSessions { first: i as usize, second: j as usize }),
            None => calendar_problem(sessions, i + 1),
        }
    }
}

/// Versioned reference calendar of scheduled sessions.
pub struct SessionCalendar {
    id: CalendarId,
    catalog_version: CatalogVersion,
    sessions: Vec<Session>,
}

impl SessionCalendar {
    /// Sessions held by this calendar.
    pub closed spec fn sessions_spec(&self) -> Seq<Session> {
        self.sessions@
    }

    /// Identity of this calendar.
    pub closed spec fn id_spec(&self) -> CalendarId {
        self.id
    }

    /// Catalog version of this calendar.
    pub closed spec fn catalog_version_spec(&self) -> CatalogVersion {
        self.catalog_version
    }

    /// Identity of this calendar.
    pub fn id(&self) -> (id: CalendarId)
        ensures
            id == self.id_spec(),
    {
        self.id
    }

    /// The calendar's well-formedness.
    pub closed spec fn wf(&self) -> bool {
        calendar_sessions_valid(self.sessions@)
    }

    /// Builds a calendar; refuses empty or overlapping sessions.
    pub fn new(id: CalendarId, catalog_version: CatalogVersion, sessions: Vec<Session>) -> (result:
        Result<SessionCalendar, CalendarError>)
        ensures
            match result {
                Ok(calendar) => {
                    &&& calendar.wf()
                    &&& calendar.id_spec() == id
                    &&& calendar.catalog_version_spec() == catalog_version
                    &&& calendar.sessions_spec() == sessions@
                },
                Err(error) => !calendar_sessions_valid(sessions@) && calendar_problem(sessions@, 0) == Some(error),
            },
    {
        let n = sessions.len();
        let mut i: usize = 0;
        while i < n
            invariant
                n == sessions@.len(),
                0 <= i <= n,
                forall|k: int| 0 <= k < i ==> #[trigger] sessions@[k].open_ns < sessions@[k].close_ns,
                forall|a: int, b: int|
                    0 <= a < i && 0 <= b < n && a != b ==> !sessions_overlap(
                        #[trigger] sessions@[a],
                        #[trigger] sessions@[b],
                    ),
                calendar_problem(sessions@, 0) == calendar_problem(sessions@, i as int),
            decreases n - i,
        {
            if sessions[i].open_ns >= sessions[i].close_ns {
                return Err(CalendarError::EmptySession { index: i });
            }
            let mut j: usize = 0;
            while j < n
                invariant
                    n == sessions@.len(),
                    0 <= i < n,
                    0 <= j <= n,
                    forall|b: int|
                        0 <= b < j && b != i ==> !sessions_overlap(
                            sessions@[i as int],
                            #[trigger] sessions@[b],
                        ),
                    first_overlap(sessions@, i as int, 0) == first_overlap(sessions@, i as int, j as int),
                    calendar_problem(sessions@, 0) == calendar_problem(sessions@, i as int),
                    sessions@[i as int].open_ns < sessions@[i as int].close_ns,
                decreases n - j,
            {
                if j != i {
                    let a = sessions[i];
                    let b = sessions[j];
                    if a.instrument.0 == b.instrument.0 && a.segment == b.segment && a.open_ns
                        < b.close_ns && b.open_ns < a.close_ns {
                        proof {
                            assert(first_overlap(sessions@, i as int, j as int) == Some(j as int));
                        }
                        return Err(CalendarError::OverlappingSessions { first: i, second: j });
                    }
                }
                j = j + 1;
            }
            proof {
                assert(first_overlap(sessions@, i as int, n as int) is None);
                assert(calendar_problem(sessions@, i as int) == calendar_problem(sessions@, i as int + 1));
                assert forall|a: int, b: int|
                    0 <= a < i + 1 && 0 <= b < n && a != b implies !sessions_overlap(
                        #[trigger] sessions@[a],
                        #[trigger] sessions@[b],
                    ) by {
                    if a == i {
                        assert(!sessions_overlap(sessions@[i as int], sessions@[b]));
                    }
                }
            }
            i = i + 1;
        }
        Ok(SessionCalendar { id, catalog_version, sessions })
    }

    /// The `segment` session of `instrument` that holds `at_ns`, if any.
    pub fn session_at(&self, instrument: InstrumentId, at_ns: i64, segment: SessionSegment) -> (found:
        Option<Session>)
        requires
            self.wf(),
        ensures
            match found {
                Some(session) => {
                    &&& session_holds(session, instrument, at_ns, segment)
                    &&& self.sessions_spec().contains(session)
                },
                None => forall|i: int|
                    0 <= i < self.sessions_spec().len() ==> !session_holds(
                        #[trigger] self.sessions_spec()[i],
                        instrument,
                        at_ns,
                        segment,
                    ),
            },
    {
        let n = self.sessions.len();
        let mut i: usize = 0;
        while i < n
            invariant
                n == self.sessions@.len(),
                0 <= i <= n,
                forall|k: int|
                    0 <= k < i ==> !session_holds(
                        #[trigger] self.sessions@[k],
                        instrument,
                        at_ns,
                        segment,
                    ),
            decreases n - i,
        {
            let s = self.sessions[i];
            if s.instrument.0 == instrument.0 && s.segment == segment && s.open_ns <= at_ns && at_ns
                < s.close_ns {
                proof {
                    assert(self.sessions@[i as int] == s);
                }
                return Some(s);
            }
            i = i + 1;
        }
        None
    }
}

impl SessionCalendar {
    /// In a well-formed calendar at most one session of an instrument and
    /// segment holds any moment.
    pub proof fn lemma_unique_session(
        &self,
        a: Session,
        b: Session,
        instrument: InstrumentId,
        at_ns: i64,
        segment: SessionSegment,
    )
        requires
            self.wf(),
            self.sessions_spec().contains(a),
            self.sessions_spec().contains(b),
            session_holds(a, instrument, at_ns, segment),
            session_holds(b, instrument, at_ns, segment),
        ensures
            a == b,
    {
        lemma_session_unique(self.sessions@, a, b, instrument, at_ns, segment);
    }
}

/// In a valid calendar at most one session of an instrument and segment holds
/// any moment, so the session found for it is the only one.
pub proof fn lemma_session_unique(
    sessions: Seq<Session>,
    a: Session,
    b: Session,
    instrument: InstrumentId,
    at_ns: i64,
    segment: SessionSegment,
)
    requires
        calendar_sessions_valid(sessions),
        sessions.contains(a),
        sessions.contains(b),
        session_holds(a, instrument, at_ns, segment),
        session_holds(b, instrument, at_ns, segment),
    ensures
        a == b,
{
    let i = choose|i: int| 0 <= i < sessions.len() && sessions[i] == a;
    let j = choose|j: int| 0 <= j < sessions.len() && sessions[j] == b;
    if i != j {
        assert(sessions_overlap(sessions[i], sessions[j]));
    }
}

} // verus!
