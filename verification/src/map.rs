//! Declarative map descriptions: the external input that `Game::new`
//! bootstraps a world from. Positions and sizes of described entities are
//! normalized to the world dimensions, in thousandths (0 = left/bottom
//! edge, 1000 = right/top edge); absent fields fall back to documented
//! defaults. The host parses the wire format, maps unknown shape names to
//! `ShapeKind::Unsupported`, and rejects out-of-range records before they
//! reach this module.

use vstd::prelude::*;

verus! {

/// Declared shape of a map entity. Descriptors whose shape name the wire
/// parser does not recognise arrive as `Unsupported` and are skipped.
#[derive(Clone, Copy, Debug, PartialEq, Eq)]
pub enum ShapeKind {
    Rect,
    Circle,
    Unsupported,
}

/// World dimensions (width, height) in thousandths of a world unit.
#[derive(Clone, Copy, Debug, PartialEq, Eq)]
pub struct DimensionsData(pub i64, pub i64);

/// One entity descriptor. Rects give two corners (`x1`,`y1`)-(`x2`,`y2`),
/// circles a centre (`x`,`y`) and a radius, all normalized in thousandths
/// of the world dimensions. `restitution` is in thousandths.
#[derive(Clone, Copy, Debug, PartialEq, Eq)]
pub struct EntityData {
    pub shape: ShapeKind,
    pub x1: Option<i64>,
    pub y1: Option<i64>,
    pub x2: Option<i64>,
    pub y2: Option<i64>,
    pub x: Option<i64>,
    pub y: Option<i64>,
    pub radius: Option<i64>,
    pub is_static: Option<bool>,
    pub is_death: Option<bool>,
    pub restitution: Option<i64>,
}

/// A full map description: every part is optional and defaults apply.
/// Gravity is in thousandths of a world unit per second squared.
pub struct MapData {
    pub gravity: Option<(i64, i64)>,
    pub dimensions: Option<DimensionsData>,
    pub entities: Option<Vec<EntityData>>,
}

/// Largest accepted world dimension, one million world units: keeps every
/// scaled coordinate well inside the machine integer range.
pub const MAX_DIMENSION: i64 = 1000000000;

/// One whole, in the thousandths fixed-point scale used throughout.
pub const PERMILLE: i64 = 1000;

/// Cap on the number of entity descriptors: entity ids live in `u32`.
pub const MAX_MAP_ENTITIES: usize = 0xFFFFFFFF;

pub open spec fn dimensions_ok(d: DimensionsData) -> bool {
    &&& 0 < d.0 <= MAX_DIMENSION
    &&& 0 < d.1 <= MAX_DIMENSION
}

/// A normalized coordinate lies in [0, 1] — in thousandths, [0, 1000].
pub open spec fn coord_ok(c: Option<i64>) -> bool {
    match c {
        Some(v) => 0 <= v <= PERMILLE,
        None => true,
    }
}

pub open spec fn entity_data_ok(e: EntityData) -> bool {
    &&& coord_ok(e.x1)
    &&& coord_ok(e.y1)
    &&& coord_ok(e.x2)
    &&& coord_ok(e.y2)
    &&& coord_ok(e.x)
    &&& coord_ok(e.y)
    &&& coord_ok(e.radius)
}

/// Shape checks on a map description: dimensions positive and bounded,
/// normalized coordinates within [0, 1]. The host rejects descriptions
/// that fail these and falls back to the default map.
pub open spec fn map_data_ok(m: MapData) -> bool {
    &&& match m.dimensions {
        Some(d) => dimensions_ok(d),
        None => true,
    }
    &&& match m.entities {
        Some(es) => es@.len() <= MAX_MAP_ENTITIES && (forall|i: int|
            0 <= i < es@.len() ==> entity_data_ok(#[trigger] es@[i])),
        None => true,
    }
}

/// Executable form of `dimensions_ok`, for hosts validating input.
pub fn check_dimensions(d: &DimensionsData) -> (r: bool)
    ensures
        r == dimensions_ok(*d),
{
    0 < d.0 && d.0 <= MAX_DIMENSION && 0 < d.1 && d.1 <= MAX_DIMENSION
}

fn check_coord(c: &Option<i64>) -> (r: bool)
    ensures
        r == coord_ok(*c),
{
    match c {
        Some(v) => 0 <= *v && *v <= PERMILLE,
        None => true,
    }
}

/// Executable form of `entity_data_ok`.
pub fn check_entity_data(e: &EntityData) -> (r: bool)
    ensures
        r == entity_data_ok(*e),
{
    check_coord(&e.x1) && check_coord(&e.y1) && check_coord(&e.x2) && check_coord(&e.y2)
        && check_coord(&e.x) && check_coord(&e.y) && check_coord(&e.radius)
}

/// Executable form of `map_data_ok`: the boundary test a host runs before
/// handing a parsed description to `Game::new`.
pub fn check_map_data(m: &MapData) -> (r: bool)
    ensures
        r == map_data_ok(*m),
{
    let dims_fine = match &m.dimensions {
        Some(d) => check_dimensions(d),
        None => true,
    };
    if !dims_fine {
        return false;
    }
    match &m.entities {
        Some(es) => {
            if es.len() > MAX_MAP_ENTITIES {
                return false;
            }
            let mut i: usize = 0;
            while i < es.len()
                invariant
                    i <= es@.len(),
                    m.entities == Some(*es),
                    forall|j: int| 0 <= j < i ==> entity_data_ok(#[trigger] es@[j]),
                decreases es@.len() - i,
            {
                if !check_entity_data(&es[i]) {
                    return false;
                }
                i = i + 1;
            }
            true
        },
        None => true,
    }
}

} // verus!
