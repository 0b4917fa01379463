//! Read-only chart projection of the structural state: labelled lines and
//! bands in presentation order.

use super::contracts::{
    LevelFamily, LevelId, LevelKind, LevelState, StructuralGraphSnapshot, StructuralObject,
};
use super::ordering::{SortKey, key_le, sort_keyed};
use crate::data_plane::InstrumentId;
use std::sync::Arc;
use vstd::prelude::*;
use vstd::string::*;
use crate::text::{append_decimal, decimal_text};

verus! {

/// Presentation family of a chart element.
#[derive(Clone, Copy, Debug, PartialEq, Eq, Structural)]
pub enum SemanticStyle {
    AdaptiveValue,
    ValueCenter,
    Boundary,
    Calendar,
    Liquidity,
    Range,
}

/// Stable code of a style (1 to 6 in declaration order).
pub open spec fn style_code_spec(style: SemanticStyle) -> u8 {
    match style {
        SemanticStyle::AdaptiveValue => 1,
        SemanticStyle::ValueCenter => 2,
        SemanticStyle::Boundary => 3,
        SemanticStyle::Calendar => 4,
        SemanticStyle::Liquidity => 5,
        SemanticStyle::Range => 6,
    }
}

impl SemanticStyle {
    /// Stable code of this style.
    pub fn code(self) -> (code: u8)
        ensures
            code == style_code_spec(self),
    {
        match self {
            SemanticStyle::AdaptiveValue => 1,
            SemanticStyle::ValueCenter => 2,
            SemanticStyle::Boundary => 3,
            SemanticStyle::Calendar => 4,
            SemanticStyle::Liquidity => 5,
            SemanticStyle::Range => 6,
        }
    }
}

/// A single-price chart line.
#[derive(Clone, Debug, PartialEq, Eq)]
pub struct ChartLevelLine {
    pub id: LevelId,
    pub price: i64,
    pub label: String,
    pub style: SemanticStyle,
    pub priority: u8,
    pub frozen: bool,
}

/// A chart band.
#[derive(Clone, Debug, PartialEq, Eq)]
pub struct ChartBand {
    pub id: LevelId,
    pub lower: i64,
    pub upper: i64,
    pub label: String,
    pub style: SemanticStyle,
    pub priority: u8,
    pub frozen: bool,
}

/// What a chart draws for one generation of structure.
pub struct ChartStructureSnapshot {
    pub instrument_id: InstrumentId,
    pub generation: u64,
    pub lines: Vec<ChartLevelLine>,
    pub bands: Vec<ChartBand>,
    pub graph: Arc<StructuralGraphSnapshot>,
}

/// Chart label of an object of `kind`; range projections carry their ordinal.
pub open spec fn label_text(kind: LevelKind, ordinal: u16) -> Seq<char> {
    match kind {
        LevelKind::CurrentSessionHigh => "CSH"@,
        LevelKind::CurrentSessionLow => "CSL"@,
        LevelKind::PreviousSessionHigh => "PSH"@,
        LevelKind::PreviousSessionLow => "PSL"@,
        LevelKind::DailyExtremeUpperBand => "D-U"@,
        LevelKind::DailyExtremeLowerBand => "D-L"@,
        LevelKind::OpeningRangeHigh => "ORH"@,
        LevelKind::OpeningRangeLow => "ORL"@,
        LevelKind::OpeningRangeMid => "ORM"@,
        LevelKind::RangeProjection => "R"@ + decimal_text(ordinal as nat),
        LevelKind::ProfilePoc => "POC"@,
        LevelKind::ProfileVah => "VAH"@,
        LevelKind::ProfileVal => "VAL"@,
        LevelKind::VolKittC1 => "C1"@,
        LevelKind::VolKittC2 => "C2"@,
        LevelKind::VolKittC3 => "C3"@,
        LevelKind::VolKittC4 => "C4"@,
        LevelKind::VolKittC5 => "C5"@,
        LevelKind::VolKittCog => "COG"@,
        LevelKind::SessionVwap => "VWAP"@,
        LevelKind::UpperLiquidityShelf => "LQ-U"@,
        LevelKind::LowerLiquidityShelf => "LQ-L"@,
    }
}

/// Presentation style and priority of a family; lower priorities draw first.
pub open spec fn presentation_spec(family: LevelFamily) -> (SemanticStyle, u8) {
    match family {
        LevelFamily::AdaptiveValue => (SemanticStyle::AdaptiveValue, 1),
        LevelFamily::Profile | LevelFamily::Vwap => (SemanticStyle::ValueCenter, 2),
        LevelFamily::Liquidity => (SemanticStyle::Liquidity, 2),
        LevelFamily::OpeningRange | LevelFamily::Session => (SemanticStyle::Boundary, 3),
        LevelFamily::Calendar => (SemanticStyle::Calendar, 3),
        LevelFamily::RangeProjection => (SemanticStyle::Range, 4),
    }
}

/// The line drawn for an active level.
#[verifier::opaque]
pub open spec fn line_matches(line: ChartLevelLine, object: StructuralObject) -> bool {
    &&& object matches StructuralObject::Level(level)
    &&& line.id == level.id
    &&& line.price == level.price
    &&& line.label@ == label_text(level.kind, level.provenance.ordinal)
    &&& line.style == presentation_spec(level.family).0
    &&& line.priority == presentation_spec(level.family).1
    &&& line.frozen == (level.state == LevelState::Frozen)
}

/// The band drawn for an active band.
#[verifier::opaque]
pub open spec fn band_matches(drawn: ChartBand, object: StructuralObject) -> bool {
    &&& object matches StructuralObject::Band(band)
    &&& drawn.id == band.id
    &&& drawn.lower == band.lower
    &&& drawn.upper == band.upper
    &&& drawn.label@ == label_text(band.kind, band.provenance.ordinal)
    &&& drawn.style == presentation_spec(band.family).0
    &&& drawn.priority == presentation_spec(band.family).1
    &&& drawn.frozen == (band.state == LevelState::Frozen)
}

/// Drawing order of lines: priority, price, identity.
pub open spec fn line_key(line: ChartLevelLine) -> SortKey {
    SortKey { a: line.priority as i128, b: line.price as i128, c: line.id.0 as i128, d: 0 }
}

/// Drawing order of bands: priority, lower bound, identity.
pub open spec fn band_key(band: ChartBand) -> SortKey {
    SortKey { a: band.priority as i128, b: band.lower as i128, c: band.id.0 as i128, d: 0 }
}

/// Chart label of an object of `kind`.
fn label(kind: LevelKind, ordinal: u16) -> (text: String)
    ensures
        text@ == label_text(kind, ordinal),
{
    match kind {
        LevelKind::RangeProjection => {
            let mut text = "R".to_owned();
            append_decimal(&mut text, ordinal as u64);
            text
        },
        LevelKind::CurrentSessionHigh => "CSH".to_owned(),
        LevelKind::CurrentSessionLow => "CSL".to_owned(),
        LevelKind::PreviousSessionHigh => "PSH".to_owned(),
        LevelKind::PreviousSessionLow => "PSL".to_owned(),
        LevelKind::DailyExtremeUpperBand => "D-U".to_owned(),
        LevelKind::DailyExtremeLowerBand => "D-L".to_owned(),
        LevelKind::OpeningRangeHigh => "ORH".to_owned(),
        LevelKind::OpeningRangeLow => "ORL".to_owned(),
        LevelKind::OpeningRangeMid => "ORM".to_owned(),
        LevelKind::ProfilePoc => "POC".to_owned(),
        LevelKind::ProfileVah => "VAH".to_owned(),
        LevelKind::ProfileVal => "VAL".to_owned(),
        LevelKind::VolKittC1 => "C1".to_owned(),
        LevelKind::VolKittC2 => "C2".to_owned(),
        LevelKind::VolKittC3 => "C3".to_owned(),
        LevelKind::VolKittC4 => "C4".to_owned(),
        LevelKind::VolKittC5 => "C5".to_owned(),
        LevelKind::VolKittCog => "COG".to_owned(),
        LevelKind::SessionVwap => "VWAP".to_owned(),
        LevelKind::UpperLiquidityShelf => "LQ-U".to_owned(),
        LevelKind::LowerLiquidityShelf => "LQ-L".to_owned(),
    }
}

/// Presentation style and priority of a family.
fn presentation(family: LevelFamily) -> (presented: (SemanticStyle, u8))
    ensures
        presented == presentation_spec(family),
{
    match family {
        LevelFamily::AdaptiveValue => (SemanticStyle::AdaptiveValue, 1),
        LevelFamily::Profile | LevelFamily::Vwap => (SemanticStyle::ValueCenter, 2),
        LevelFamily::Liquidity => (SemanticStyle::Liquidity, 2),
        LevelFamily::OpeningRange | LevelFamily::Session => (SemanticStyle::Boundary, 3),
        LevelFamily::Calendar => (SemanticStyle::Calendar, 3),
        LevelFamily::RangeProjection => (SemanticStyle::Range, 4),
    }
}

/// The chart line or band of one object, if it is drawn.
fn item_of(object: &StructuralObject) -> (item: (Option<ChartLevelLine>, Option<ChartBand>))
    ensures
        item.0 matches Some(line) ==> object.is_active_spec() && line_matches(line, *object),
        item.1 matches Some(band) ==> object.is_active_spec() && band_matches(band, *object),
        object.is_active_spec() && *object is Level ==> item.0 is Some,
        object.is_active_spec() && *object is Band ==> item.1 is Some,
        item.0 is Some ==> *object is Level,
        item.1 is Some ==> *object is Band,
{
    reveal(line_matches);
    reveal(band_matches);
    if !object.is_active() {
        return (None, None);
    }
    let frozen = match object.state() {
        LevelState::Frozen => true,
        _ => false,
    };
    let text = label(object.kind(), object.provenance().ordinal);
    let (style, priority) = presentation(object.family());
    match object {
        StructuralObject::Level(level) => (
            Some(ChartLevelLine { id: level.id, price: level.price, label: text, style, priority, frozen }),
            None,
        ),
        StructuralObject::Band(band) => (
            None,
            Some(
                ChartBand {
                    id: band.id,
                    lower: band.lower,
                    upper: band.upper,
                    label: text,
                    style,
                    priority,
                    frozen,
                },
            ),
        ),
    }
}

/// Chart items of the active objects, keyed by drawing order, with the
/// object each item comes from and the item of each drawn object.
fn collect_items(objects: &[StructuralObject]) -> (items: (
    Vec<(SortKey, ChartLevelLine)>,
    Vec<(SortKey, ChartBand)>,
    Ghost<Seq<int>>,
    Ghost<Seq<int>>,
    Ghost<Seq<int>>,
))
    ensures
        items.2@.len() == items.0@.len(),
        items.3@.len() == items.1@.len(),
        items.4@.len() == objects@.len(),
        forall|q: int| #![trigger items.0@[q]] 0 <= q < items.0@.len() ==> {
            &&& items.0@[q].0 == line_key(items.0@[q].1)
            &&& 0 <= items.2@[q] < objects@.len()
            &&& objects@[items.2@[q]].is_active_spec()
            &&& line_matches(items.0@[q].1, objects@[items.2@[q]])
        },
        forall|q: int| #![trigger items.1@[q]] 0 <= q < items.1@.len() ==> {
            &&& items.1@[q].0 == band_key(items.1@[q].1)
            &&& 0 <= items.3@[q] < objects@.len()
            &&& objects@[items.3@[q]].is_active_spec()
            &&& band_matches(items.1@[q].1, objects@[items.3@[q]])
        },
        forall|j: int| #![trigger items.4@[j]] 0 <= j < objects@.len() && objects@[j].is_active_spec() ==> {
            &&& objects@[j] is Level ==> 0 <= items.4@[j] < items.0@.len() && line_matches(
                items.0@[items.4@[j]].1,
                objects@[j],
            )
            &&& objects@[j] is Band ==> 0 <= items.4@[j] < items.1@.len() && band_matches(
                items.1@[items.4@[j]].1,
                objects@[j],
            )
        },
{
    let mut keyed_lines: Vec<(SortKey, ChartLevelLine)> = Vec::new();
    let mut keyed_bands: Vec<(SortKey, ChartBand)> = Vec::new();
    let ghost mut line_source: Seq<int> = Seq::empty();
    let ghost mut band_source: Seq<int> = Seq::empty();
    let ghost mut position: Seq<int> = Seq::empty();
    let n = objects.len();
    let mut i: usize = 0;
    while i < n
        invariant
            n == objects@.len(),
            0 <= i <= n,
            line_source.len() == keyed_lines@.len(),
            band_source.len() == keyed_bands@.len(),
            position.len() == i,
            forall|q: int| #![trigger keyed_lines@[q]] 0 <= q < keyed_lines@.len() ==> {
                &&& keyed_lines@[q].0 == line_key(keyed_lines@[q].1)
                &&& 0 <= line_source[q] < i
                &&& objects@[line_source[q]].is_active_spec()
                &&& line_matches(keyed_lines@[q].1, objects@[line_source[q]])
            },
            forall|q: int| #![trigger keyed_bands@[q]] 0 <= q < keyed_bands@.len() ==> {
                &&& keyed_bands@[q].0 == band_key(keyed_bands@[q].1)
                &&& 0 <= band_source[q] < i
                &&& objects@[band_source[q]].is_active_spec()
                &&& band_matches(keyed_bands@[q].1, objects@[band_source[q]])
            },
            forall|j: int| #![trigger position[j]] 0 <= j < i && objects@[j].is_active_spec() ==> {
                &&& objects@[j] is Level ==> 0 <= position[j] < keyed_lines@.len() && line_matches(
                    keyed_lines@[position[j]].1,
                    objects@[j],
                )
                &&& objects@[j] is Band ==> 0 <= position[j] < keyed_bands@.len() && band_matches(
                    keyed_bands@[position[j]].1,
                    objects@[j],
                )
            },
        decreases n - i,
    {
        let (line, drawn) = item_of(&objects[i]);
        let ghost before_lines = keyed_lines@;
        let ghost before_bands = keyed_bands@;
        let ghost before_line_source = line_source;
        let ghost before_band_source = band_source;
        let ghost before_position = position;
        let ghost mut slot: int = 0;
        if let Some(line) = line {
            let key = SortKey { a: line.priority as i128, b: line.price as i128, c: line.id.0 as i128, d: 0 };
            proof {
                slot = keyed_lines@.len() as int;
                line_source = line_source.push(i as int);
            }
            keyed_lines.push((key, line));
            proof {
                assert(keyed_lines@[slot] == (key, line));
                assert(key == line_key(line));
                assert(keyed_lines@[slot].0 == line_key(keyed_lines@[slot].1));
                assert(line_source[slot] == i);
                assert(line_matches(line, objects@[i as int]));
            }
        }
        if let Some(drawn) = drawn {
            let key = SortKey { a: drawn.priority as i128, b: drawn.lower as i128, c: drawn.id.0 as i128, d: 0 };
            proof {
                slot = keyed_bands@.len() as int;
                band_source = band_source.push(i as int);
            }
            keyed_bands.push((key, drawn));
            proof {
                assert(keyed_bands@[slot] == (key, drawn));
                assert(band_matches(drawn, objects@[i as int]));
            }
        }
        i = i + 1;
        proof {
            position = position.push(slot);
            assert forall|q: int| #![trigger keyed_lines@[q]] 0 <= q < keyed_lines@.len() implies {
                &&& keyed_lines@[q].0 == line_key(keyed_lines@[q].1)
                &&& 0 <= line_source[q] < i
                &&& objects@[line_source[q]].is_active_spec()
                &&& line_matches(keyed_lines@[q].1, objects@[line_source[q]])
            } by {
                if q < before_lines.len() {
                    assert(keyed_lines@[q] == before_lines[q]);
                    assert(line_source[q] == before_line_source[q]);
                }
            }
            assert forall|q: int| #![trigger keyed_bands@[q]] 0 <= q < keyed_bands@.len() implies {
                &&& keyed_bands@[q].0 == band_key(keyed_bands@[q].1)
                &&& 0 <= band_source[q] < i
                &&& objects@[band_source[q]].is_active_spec()
                &&& band_matches(keyed_bands@[q].1, objects@[band_source[q]])
            } by {
                if q < before_bands.len() {
                    assert(keyed_bands@[q] == before_bands[q]);
                    assert(band_source[q] == before_band_source[q]);
                }
            }
            assert forall|j: int| #![trigger position[j]] 0 <= j < i && objects@[j].is_active_spec() implies {
                &&& objects@[j] is Level ==> 0 <= position[j] < keyed_lines@.len() && line_matches(
                    keyed_lines@[position[j]].1,
                    objects@[j],
                )
                &&& objects@[j] is Band ==> 0 <= position[j] < keyed_bands@.len() && band_matches(
                    keyed_bands@[position[j]].1,
                    objects@[j],
                )
            } by {
                if j < i - 1 {
                    assert(position[j] == before_position[j]);
                    if objects@[j] is Level {
                        assert(keyed_lines@[position[j]] == before_lines[position[j]]);
                    }
                    if objects@[j] is Band {
                        assert(keyed_bands@[position[j]] == before_bands[position[j]]);
                    }
                }
            }
        }
    }
    (keyed_lines, keyed_bands, Ghost(line_source), Ghost(band_source), Ghost(position))
}

/// The line is drawn from an active level of `objects`.
pub open spec fn line_drawn(line: ChartLevelLine, objects: Seq<StructuralObject>) -> bool {
    exists|o: StructuralObject| #![trigger objects.contains(o)] objects.contains(o) && o.is_active_spec() && line_matches(line, o)
}

/// Some line draws the object.
pub open spec fn level_drawn(lines: Seq<ChartLevelLine>, object: StructuralObject) -> bool {
    exists|i: int| 0 <= i < lines.len() && line_matches(#[trigger] lines[i], object)
}

/// The band is drawn from an active band of `objects`.
pub open spec fn band_drawn(band: ChartBand, objects: Seq<StructuralObject>) -> bool {
    exists|o: StructuralObject| #![trigger objects.contains(o)] objects.contains(o) && o.is_active_spec() && band_matches(band, o)
}

/// Some band draws the object.
pub open spec fn band_object_drawn(bands: Seq<ChartBand>, object: StructuralObject) -> bool {
    exists|i: int| 0 <= i < bands.len() && band_matches(#[trigger] bands[i], object)
}

/// Every line is drawn from an active level of `objects`, every active level
/// has a line, and lines come in drawing order.
#[verifier::opaque]
pub open spec fn lines_faithful(lines: Seq<ChartLevelLine>, objects: Seq<StructuralObject>) -> bool {
    &&& forall|i: int| 0 <= i < lines.len() ==> line_drawn(#[trigger] lines[i], objects)
    &&& forall|o: StructuralObject|
        #![trigger objects.contains(o)]
        objects.contains(o) && o.is_active_spec() && o is Level ==> level_drawn(lines, o)
    &&& forall|i: int, j: int|
        0 <= i < j < lines.len() ==> key_le(line_key(#[trigger] lines[i]), line_key(#[trigger] lines[j]))
}

/// Every band is drawn from an active band of `objects`, every active band is
/// drawn, and bands come in drawing order.
#[verifier::opaque]
pub open spec fn bands_faithful(bands: Seq<ChartBand>, objects: Seq<StructuralObject>) -> bool {
    &&& forall|i: int| 0 <= i < bands.len() ==> band_drawn(#[trigger] bands[i], objects)
    &&& forall|o: StructuralObject|
        #![trigger objects.contains(o)]
        objects.contains(o) && o.is_active_spec() && o is Band ==> band_object_drawn(bands, o)
    &&& forall|i: int, j: int|
        0 <= i < j < bands.len() ==> key_le(band_key(#[trigger] bands[i]), band_key(#[trigger] bands[j]))
}

/// Projects the active objects onto chart lines and bands. Lines come in
/// (priority, price, identity) order, bands in (priority, lower, identity)
/// order; developing and frozen objects are drawn, others are not.
pub fn project_chart_structure(
    instrument_id: InstrumentId,
    generation: u64,
    objects: &[StructuralObject],
    graph: Arc<StructuralGraphSnapshot>,
) -> (chart: ChartStructureSnapshot)
    ensures
        chart.instrument_id == instrument_id,
        chart.generation == generation,
        chart.graph == graph,
        lines_faithful(chart.lines@, objects@),
        bands_faithful(chart.bands@, objects@),
{
    let (keyed_lines, keyed_bands, Ghost(line_source), Ghost(band_source), Ghost(position)) = collect_items(objects);
    let ghost keyed_lines_view = keyed_lines@;
    let ghost keyed_bands_view = keyed_bands@;
    let sorted_lines = sort_keyed(keyed_lines);
    let sorted_bands = sort_keyed(keyed_bands);
    let lines = unkey_lines(sorted_lines);
    let bands = unkey_bands(sorted_bands);
    proof {
        reveal(lines_faithful);
        reveal(bands_faithful);
        assert forall|o: StructuralObject|
            #![trigger objects@.contains(o)]
            objects@.contains(o) && o.is_active_spec() && o is Level implies level_drawn(lines@, o) by {
            let j = choose|j: int| 0 <= j < objects@.len() && objects@[j] == o;
            let q = position[j];
            assert(0 <= q < keyed_lines_view.len() && line_matches(keyed_lines_view[q].1, objects@[j]));
            assert(keyed_lines_view.contains(keyed_lines_view[q]));
            assert(sorted_lines@.contains(keyed_lines_view[q]));
            let p = choose|p: int| 0 <= p < sorted_lines@.len() && sorted_lines@[p] == keyed_lines_view[q];
            assert(lines@[p] == sorted_lines@[p].1);
        }
        assert forall|o: StructuralObject|
            #![trigger objects@.contains(o)]
            objects@.contains(o) && o.is_active_spec() && o is Band implies band_object_drawn(bands@, o) by {
            let j = choose|j: int| 0 <= j < objects@.len() && objects@[j] == o;
            let q = position[j];
            assert(0 <= q < keyed_bands_view.len() && band_matches(keyed_bands_view[q].1, objects@[j]));
            assert(keyed_bands_view.contains(keyed_bands_view[q]));
            assert(sorted_bands@.contains(keyed_bands_view[q]));
            let p = choose|p: int| 0 <= p < sorted_bands@.len() && sorted_bands@[p] == keyed_bands_view[q];
            assert(bands@[p] == sorted_bands@[p].1);
        }
        assert forall|i: int| 0 <= i < lines@.len() implies line_drawn(#[trigger] lines@[i], objects@) by {
            assert(sorted_lines@.contains(sorted_lines@[i]));
            let q = choose|q: int| 0 <= q < keyed_lines_view.len() && keyed_lines_view[q] == sorted_lines@[i];
            assert(keyed_lines_view[q] == keyed_lines_view[q]);
            let j = line_source[q];
            assert(objects@.contains(objects@[j]));
        }
        assert forall|i: int| 0 <= i < bands@.len() implies band_drawn(#[trigger] bands@[i], objects@) by {
            assert(sorted_bands@.contains(sorted_bands@[i]));
            let q = choose|q: int| 0 <= q < keyed_bands_view.len() && keyed_bands_view[q] == sorted_bands@[i];
            assert(keyed_bands_view[q] == keyed_bands_view[q]);
            let j = band_source[q];
            assert(objects@.contains(objects@[j]));
        }
        assert forall|i: int, j: int| 0 <= i < j < lines@.len() implies key_le(line_key(#[trigger] lines@[i]), line_key(#[trigger] lines@[j])) by {
            assert(sorted_lines@.contains(sorted_lines@[i]));
            assert(sorted_lines@.contains(sorted_lines@[j]));
            let p = choose|p: int| 0 <= p < keyed_lines_view.len() && keyed_lines_view[p] == sorted_lines@[i];
            let q = choose|q: int| 0 <= q < keyed_lines_view.len() && keyed_lines_view[q] == sorted_lines@[j];
            assert(keyed_lines_view[p] == keyed_lines_view[p]);
            assert(keyed_lines_view[q] == keyed_lines_view[q]);
            assert(key_le(sorted_lines@[i].0, sorted_lines@[j].0));
        }
        assert forall|i: int, j: int| 0 <= i < j < bands@.len() implies key_le(band_key(#[trigger] bands@[i]), band_key(#[trigger] bands@[j])) by {
            assert(sorted_bands@.contains(sorted_bands@[i]));
            assert(sorted_bands@.contains(sorted_bands@[j]));
            let p = choose|p: int| 0 <= p < keyed_bands_view.len() && keyed_bands_view[p] == sorted_bands@[i];
            let q = choose|q: int| 0 <= q < keyed_bands_view.len() && keyed_bands_view[q] == sorted_bands@[j];
            assert(keyed_bands_view[p] == keyed_bands_view[p]);
            assert(keyed_bands_view[q] == keyed_bands_view[q]);
            assert(key_le(sorted_bands@[i].0, sorted_bands@[j].0));
        }
        assert(lines_faithful(lines@, objects@));
        assert(bands_faithful(bands@, objects@));
    }
    ChartStructureSnapshot { instrument_id, generation, lines, bands, graph }
}

/// The lines of keyed lines, in order.
fn unkey_lines(keyed: Vec<(SortKey, ChartLevelLine)>) -> (lines: Vec<ChartLevelLine>)
    ensures
        lines@.len() == keyed@.len(),
        forall|i: int| 0 <= i < keyed@.len() ==> #[trigger] lines@[i] == keyed@[i].1,
{
    let mut rest = keyed;
    let ghost all = rest@;
    let mut lines: Vec<ChartLevelLine> = Vec::new();
    while rest.len() > 0
        invariant
            lines@.len() + rest@.len() == all.len(),
            rest@ == all.subrange(lines@.len() as int, all.len() as int),
            forall|q: int| 0 <= q < lines@.len() ==> #[trigger] lines@[q] == all[q].1,
        decreases rest@.len(),
    {
        let (_, line) = rest.remove(0);
        lines.push(line);
    }
    lines
}

/// The bands of keyed bands, in order.
fn unkey_bands(keyed: Vec<(SortKey, ChartBand)>) -> (bands: Vec<ChartBand>)
    ensures
        bands@.len() == keyed@.len(),
        forall|i: int| 0 <= i < keyed@.len() ==> #[trigger] bands@[i] == keyed@[i].1,
{
    let mut rest = keyed;
    let ghost all = rest@;
    let mut bands: Vec<ChartBand> = Vec::new();
    while rest.len() > 0
        invariant
            bands@.len() + rest@.len() == all.len(),
            rest@ == all.subrange(bands@.len() as int, all.len() as int),
            forall|q: int| 0 <= q < bands@.len() ==> #[trigger] bands@[q] == all[q].1,
        decreases rest@.len(),
    {
        let (_, band) = rest.remove(0);
        bands.push(band);
    }
    bands
}

} // verus!
