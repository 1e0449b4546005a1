//! World bootstrap: builds a fully initialized `Game` from an optional
//! declarative map description, or from the built-in default layout
//! (a 16 x 9 arena holding an 8 x 5 grid of unit movable squares).

use vstd::prelude::*;
use crate::map::{
    DimensionsData, EntityData, MapData, ShapeKind, coord_ok, dimensions_ok, entity_data_ok,
    map_data_ok, MAX_DIMENSION, PERMILLE,
};
use crate::world::{
    Boundary, Entity, EntityTag, Game, PlayerAvatar, GrabJoint, QueuedInput, ShapeDesc,
};

verus! {

/// Default world width, in thousandths of a world unit (16 units).
pub const DEFAULT_WORLD_WIDTH: i64 = 16000;

/// Default world height, in thousandths of a world unit (9 units).
pub const DEFAULT_WORLD_HEIGHT: i64 = 9000;

pub const DEFAULT_GRAVITY_X: i64 = 0;

/// Default downward gravity of two world units per second squared.
pub const DEFAULT_GRAVITY_Y: i64 = -2000;

/// Half-thickness of each boundary wall (0.1 world units).
pub const WALL_THICKNESS: i64 = 100;

/// Integration sub-intervals per outer tick.
pub const DEFAULT_SUBSTEPS: u32 = 10;

/// Half-extent of a default grid square: the grid is made of unit
/// squares, so each spans half a world unit from its centre.
pub const GRID_HALF_EXTENT: i64 = 500;

/// Default circle radius when a descriptor gives none: a tenth of the
/// world width, normalized in thousandths.
pub const DEFAULT_RADIUS: i64 = 100;

/// Number of squares in the default grid (8 columns x 5 rows).
pub const GRID_COUNT: usize = 40;

pub open spec fn or_zero(c: Option<i64>) -> i64 {
    match c {
        Some(v) => v,
        None => 0,
    }
}

pub open spec fn or_false(b: Option<bool>) -> bool {
    match b {
        Some(v) => v,
        None => false,
    }
}

pub open spec fn radius_or_default(c: Option<i64>) -> i64 {
    match c {
        Some(v) => v,
        None => DEFAULT_RADIUS,
    }
}

/// A normalized coordinate scaled against a world dimension.
pub open spec fn scale_norm(p: i64, d: i64) -> int {
    p * d / (PERMILLE as int)
}

/// The four boundary walls of a `w` x `h` world, centred on the origin:
/// floor, ceiling, left, right.
pub open spec fn wall_boundaries(w: i64, h: i64) -> Seq<Boundary> {
    seq![
        Boundary { x: 0, y: (-(h / 2)) as i64, half_width: (w / 2) as i64, half_height: WALL_THICKNESS },
        Boundary { x: 0, y: (h / 2) as i64, half_width: (w / 2) as i64, half_height: WALL_THICKNESS },
        Boundary { x: (-(w / 2)) as i64, y: 0, half_width: WALL_THICKNESS, half_height: (h / 2) as i64 },
        Boundary { x: (w / 2) as i64, y: 0, half_width: WALL_THICKNESS, half_height: (h / 2) as i64 },
    ]
}

/// A descriptor with a recognised shape; others are silently skipped.
pub open spec fn supported_desc(e: EntityData) -> bool {
    e.shape is Rect || e.shape is Circle
}

/// The entity a supported descriptor builds: normalized coordinates are
/// scaled against the world dimensions and recentred on the origin. A rect
/// is given by two corners, a circle by centre and radius (radius scales
/// with the width). The spawn pose records the build pose.
pub open spec fn entity_from_desc(e: EntityData, w: i64, h: i64, id: u32) -> Entity
    recommends
        supported_desc(e),
{
    let tag = if or_false(e.is_death) {
        EntityTag::Death
    } else {
        EntityTag::Grabbable
    };
    if e.shape is Rect {
        let x1 = scale_norm(or_zero(e.x1), w);
        let x2 = scale_norm(or_zero(e.x2), w);
        let y1 = scale_norm(or_zero(e.y1), h);
        let y2 = scale_norm(or_zero(e.y2), h);
        let cx = ((x1 + x2) / 2 - w / 2) as i64;
        let cy = ((y1 + y2) / 2 - h / 2) as i64;
        Entity {
            id,
            x: cx,
            y: cy,
            rotation: 0,
            vx: 0,
            vy: 0,
            angular_velocity: 0,
            spawn_x: cx,
            spawn_y: cy,
            spawn_rotation: 0,
            shape: ShapeDesc::Square {
                half_width: ((if x1 <= x2 { x2 - x1 } else { x1 - x2 }) / 2) as i64,
                half_height: ((if y1 <= y2 { y2 - y1 } else { y1 - y2 }) / 2) as i64,
            },
            tag,
            is_static: or_false(e.is_static),
            restitution: or_zero(e.restitution),
        }
    } else {
        let cx = (scale_norm(or_zero(e.x), w) - w / 2) as i64;
        let cy = (scale_norm(or_zero(e.y), h) - h / 2) as i64;
        Entity {
            id,
            x: cx,
            y: cy,
            rotation: 0,
            vx: 0,
            vy: 0,
            angular_velocity: 0,
            spawn_x: cx,
            spawn_y: cy,
            spawn_rotation: 0,
            shape: ShapeDesc::Circle { radius: scale_norm(radius_or_default(e.radius), w) as i64 },
            tag,
            is_static: or_false(e.is_static),
            restitution: or_zero(e.restitution),
        }
    }
}

/// The entities a descriptor list builds, in order, skipping unsupported
/// shapes; ids are assigned sequentially from zero.
pub open spec fn entities_from_descs(descs: Seq<EntityData>, w: i64, h: i64) -> Seq<Entity>
    decreases descs.len(),
{
    if descs.len() == 0 {
        Seq::empty()
    } else {
        let rest = entities_from_descs(descs.drop_last(), w, h);
        if supported_desc(descs.last()) {
            rest.push(entity_from_desc(descs.last(), w, h, rest.len() as u32))
        } else {
            rest
        }
    }
}

/// Square `k` of the default grid: 8 columns spaced one unit apart and
/// centred on the origin, 5 rows likewise, each a dynamic grabbable unit
/// square.
pub open spec fn default_entity(k: int) -> Entity {
    Entity {
        id: k as u32,
        x: (k / 5 * 1000 - 3500) as i64,
        y: (k % 5 * 1000 - 2000) as i64,
        rotation: 0,
        vx: 0,
        vy: 0,
        angular_velocity: 0,
        spawn_x: (k / 5 * 1000 - 3500) as i64,
        spawn_y: (k % 5 * 1000 - 2000) as i64,
        spawn_rotation: 0,
        shape: ShapeDesc::Square { half_width: GRID_HALF_EXTENT, half_height: GRID_HALF_EXTENT },
        tag: EntityTag::Grabbable,
        is_static: false,
        restitution: 0,
    }
}

pub open spec fn default_entities() -> Seq<Entity> {
    Seq::new(GRID_COUNT as nat, |k: int| default_entity(k))
}

/// The world dimensions a map description declares, or the defaults.
pub open spec fn world_dims(map: Option<MapData>) -> (i64, i64) {
    match map {
        Some(m) => match m.dimensions {
            Some(d) => (d.0, d.1),
            None => (DEFAULT_WORLD_WIDTH, DEFAULT_WORLD_HEIGHT),
        },
        None => (DEFAULT_WORLD_WIDTH, DEFAULT_WORLD_HEIGHT),
    }
}

/// The gravity a map description declares, or the default.
pub open spec fn world_gravity(map: Option<MapData>) -> (i64, i64) {
    match map {
        Some(m) => match m.gravity {
            Some(g) => g,
            None => (DEFAULT_GRAVITY_X, DEFAULT_GRAVITY_Y),
        },
        None => (DEFAULT_GRAVITY_X, DEFAULT_GRAVITY_Y),
    }
}

/// The entities a map description populates the world with: the described
/// list if one is given, nothing for a description without entities, and
/// the default grid when no description is given at all.
pub open spec fn built_entities(map: Option<MapData>, w: i64, h: i64) -> Seq<Entity> {
    match map {
        Some(m) => match m.entities {
            Some(es) => entities_from_descs(es@, w, h),
            None => Seq::empty(),
        },
        None => default_entities(),
    }
}

pub open spec fn map_arg_ok(map: Option<MapData>) -> bool {
    match map {
        Some(m) => map_data_ok(m),
        None => true,
    }
}

/// Built entities carry sequential ids starting at zero, and there are
/// never more of them than descriptors.
pub proof fn lemma_built_entity_ids(descs: Seq<EntityData>, w: i64, h: i64)
    requires
        descs.len() <= 0xFFFFFFFF,
    ensures
        entities_from_descs(descs, w, h).len() <= descs.len(),
        forall|i: int|
            0 <= i < entities_from_descs(descs, w, h).len() ==> (#[trigger] entities_from_descs(
                descs,
                w,
                h,
            )[i]).id == i as u32,
    decreases descs.len(),
{
    if descs.len() > 0 {
        lemma_built_entity_ids(descs.drop_last(), w, h);
    }
}

/// A normalized coordinate scaled against a dimension, in executable form.
fn scale(p: i64, d: i64) -> (r: i64)
    requires
        0 <= p <= PERMILLE,
        0 < d <= MAX_DIMENSION,
    ensures
        r as int == scale_norm(p, d),
        0 <= r <= MAX_DIMENSION,
{
    proof {
        assert(0 <= p * d <= 1000000000000) by (nonlinear_arith)
            requires
                0 <= p <= 1000,
                0 < d <= 1000000000,
        ;
    }
    p * d / 1000
}

fn opt_or_zero(c: &Option<i64>) -> (r: i64)
    ensures
        r == or_zero(*c),
{
    match c {
        Some(v) => *v,
        None => 0,
    }
}

fn opt_or_false(b: &Option<bool>) -> (r: bool)
    ensures
        r == or_false(*b),
{
    match b {
        Some(v) => *v,
        None => false,
    }
}

/// Builds the entity a supported descriptor describes.
fn build_entity(e: &EntityData, w: i64, h: i64, id: u32) -> (r: Entity)
    requires
        entity_data_ok(*e),
        0 < w <= MAX_DIMENSION,
        0 < h <= MAX_DIMENSION,
        supported_desc(*e),
    ensures
        r == entity_from_desc(*e, w, h, id),
{
    let is_static = opt_or_false(&e.is_static);
    let is_death = opt_or_false(&e.is_death);
    let restitution = opt_or_zero(&e.restitution);
    let tag = if is_death {
        EntityTag::Death
    } else {
        EntityTag::Grabbable
    };
    if matches!(e.shape, ShapeKind::Rect) {
        let x1 = scale(opt_or_zero(&e.x1), w);
        let x2 = scale(opt_or_zero(&e.x2), w);
        let y1 = scale(opt_or_zero(&e.y1), h);
        let y2 = scale(opt_or_zero(&e.y2), h);
        let cx = (x1 + x2) / 2 - w / 2;
        let cy = (y1 + y2) / 2 - h / 2;
        let half_width = (if x1 <= x2 {
            x2 - x1
        } else {
            x1 - x2
        }) / 2;
        let half_height = (if y1 <= y2 {
            y2 - y1
        } else {
            y1 - y2
        }) / 2;
        Entity {
            id,
            x: cx,
            y: cy,
            rotation: 0,
            vx: 0,
            vy: 0,
            angular_velocity: 0,
            spawn_x: cx,
            spawn_y: cy,
            spawn_rotation: 0,
            shape: ShapeDesc::Square { half_width, half_height },
            tag,
            is_static,
            restitution,
        }
    } else {
        let cx = scale(opt_or_zero(&e.x), w) - w / 2;
        let cy = scale(opt_or_zero(&e.y), h) - h / 2;
        let radius_norm = match &e.radius {
            Some(v) => *v,
            None => DEFAULT_RADIUS,
        };
        let radius = scale(radius_norm, w);
        Entity {
            id,
            x: cx,
            y: cy,
            rotation: 0,
            vx: 0,
            vy: 0,
            angular_velocity: 0,
            spawn_x: cx,
            spawn_y: cy,
            spawn_rotation: 0,
            shape: ShapeDesc::Circle { radius },
            tag,
            is_static,
            restitution,
        }
    }
}

impl Game {
    /// Builds a fully initialized world from an optional map description.
    /// Defaults apply wherever the description is silent: a 16 x 9 arena,
    /// gravity (0, -2), four boundary walls of half-thickness 0.1 sized to
    /// the arena, and — when no description is given at all — the default
    /// 8 x 5 grid of unit-spaced movable squares. Descriptors with an
    /// unsupported shape are silently skipped. The world starts running,
    /// with no players, joints or queued inputs.
    pub fn new(map_data: Option<MapData>) -> (g: Game)
        requires
            map_arg_ok(map_data),
        ensures
            g.wf(),
            !g.paused,
            g.substeps == DEFAULT_SUBSTEPS,
            g.players@ == Seq::<PlayerAvatar>::empty(),
            g.grab_joints@ == Seq::<GrabJoint>::empty(),
            g.player_inputs@ == Seq::<QueuedInput>::empty(),
            (g.gravity_x, g.gravity_y) == world_gravity(map_data),
            g.boundaries@ == wall_boundaries(world_dims(map_data).0, world_dims(map_data).1),
            g.entities@ == built_entities(
                map_data,
                world_dims(map_data).0,
                world_dims(map_data).1,
            ),
    {
        let (w, h): (i64, i64) = match &map_data {
            Some(m) => match &m.dimensions {
                Some(d) => (d.0, d.1),
                None => (DEFAULT_WORLD_WIDTH, DEFAULT_WORLD_HEIGHT),
            },
            None => (DEFAULT_WORLD_WIDTH, DEFAULT_WORLD_HEIGHT),
        };
        let (gravity_x, gravity_y): (i64, i64) = match &map_data {
            Some(m) => match &m.gravity {
                Some(gv) => (gv.0, gv.1),
                None => (DEFAULT_GRAVITY_X, DEFAULT_GRAVITY_Y),
            },
            None => (DEFAULT_GRAVITY_X, DEFAULT_GRAVITY_Y),
        };
        let half_w = w / 2;
        let half_h = h / 2;
        let mut boundaries: Vec<Boundary> = Vec::new();
        boundaries.push(
            Boundary { x: 0, y: -half_h, half_width: half_w, half_height: WALL_THICKNESS },
        );
        boundaries.push(
            Boundary { x: 0, y: half_h, half_width: half_w, half_height: WALL_THICKNESS },
        );
        boundaries.push(
            Boundary { x: -half_w, y: 0, half_width: WALL_THICKNESS, half_height: half_h },
        );
        boundaries.push(
            Boundary { x: half_w, y: 0, half_width: WALL_THICKNESS, half_height: half_h },
        );
        proof {
            assert(boundaries@ =~= wall_boundaries(w, h));
        }
        let mut entities: Vec<Entity> = Vec::new();
        match &map_data {
            None => {
                let mut k: usize = 0;
                while k < GRID_COUNT
                    invariant
                        k <= GRID_COUNT,
                        entities@ =~= default_entities().take(k as int),
                    decreases GRID_COUNT - k,
                {
                    let col = k / 5;
                    let row = k % 5;
                    let x: i64 = (col as i64) * 1000 - 3500;
                    let y: i64 = (row as i64) * 1000 - 2000;
                    entities.push(
                        Entity {
                            id: k as u32,
                            x,
                            y,
                            rotation: 0,
                            vx: 0,
                            vy: 0,
                            angular_velocity: 0,
                            spawn_x: x,
                            spawn_y: y,
                            spawn_rotation: 0,
                            shape: ShapeDesc::Square {
                                half_width: GRID_HALF_EXTENT,
                                half_height: GRID_HALF_EXTENT,
                            },
                            tag: EntityTag::Grabbable,
                            is_static: false,
                            restitution: 0,
                        },
                    );
                    proof {
                        assert(entities@ =~= default_entities().take(k as int + 1));
                    }
                    k = k + 1;
                }
                proof {
                    assert(entities@ =~= default_entities());
                }
            },
            Some(m) => {
                match &m.entities {
                    None => {},
                    Some(es) => {
                        let mut i: usize = 0;
                        while i < es.len()
                            invariant
                                i <= es@.len(),
                                es@.len() <= 0xFFFFFFFF,
                                entities@ == entities_from_descs(es@.take(i as int), w, h),
                                0 < w <= MAX_DIMENSION,
                                0 < h <= MAX_DIMENSION,
                                forall|j: int|
                                    0 <= j < es@.len() ==> entity_data_ok(#[trigger] es@[j]),
                            decreases es@.len() - i,
                        {
                            let ghost pre = es@.take(i as int);
                            let ghost post = es@.take(i as int + 1);
                            proof {
                                assert(post.drop_last() =~= pre);
                                assert(post.last() == es@[i as int]);
                                lemma_built_entity_ids(pre, w, h);
                            }
                            let supported = matches!(es[i].shape, ShapeKind::Rect)
                                || matches!(es[i].shape, ShapeKind::Circle);
                            if supported {
                                let id = entities.len() as u32;
                                let ent = build_entity(&es[i], w, h, id);
                                entities.push(ent);
                            }
                            proof {
                                assert(entities@ == entities_from_descs(post, w, h));
                            }
                            i = i + 1;
                        }
                        proof {
                            assert(es@.take(es@.len() as int) =~= es@);
                        }
                    },
                }
            },
        }
        let g = Game {
            paused: false,
            gravity_x,
            gravity_y,
            substeps: DEFAULT_SUBSTEPS,
            boundaries,
            entities,
            players: Vec::new(),
            grab_joints: Vec::new(),
            player_inputs: Vec::new(),
        };
        proof {
            lemma_new_world_wf(g, map_data, w, h);
        }
        g
    }
}

/// A freshly built world is well-formed: empty registries, four walls,
/// and sequential (hence unique) entity ids.
proof fn lemma_new_world_wf(g: Game, map_data: Option<MapData>, w: i64, h: i64)
    requires
        map_arg_ok(map_data),
        (w, h) == world_dims(map_data),
        g.players@ == Seq::<PlayerAvatar>::empty(),
        g.grab_joints@ == Seq::<GrabJoint>::empty(),
        g.player_inputs@ == Seq::<QueuedInput>::empty(),
        g.boundaries@ == wall_boundaries(w, h),
        g.entities@ == built_entities(map_data, w, h),
    ensures
        g.wf(),
{
    match map_data {
        None => {
            assert forall|i: int, j: int|
                0 <= i < j < g.entities@.len() implies g.entities@[i].id != g.entities@[j].id by {
                assert(g.entities@[i] == default_entity(i));
                assert(g.entities@[j] == default_entity(j));
            }
        },
        Some(m) => {
            match m.entities {
                None => {},
                Some(es) => {
                    lemma_built_entity_ids(es@, w, h);
                    assert forall|i: int, j: int|
                        0 <= i < j < g.entities@.len() implies g.entities@[i].id
                        != g.entities@[j].id by {
                        assert(g.entities@[i].id == i as u32);
                        assert(g.entities@[j].id == j as u32);
                    }
                },
            }
        },
    }
}

} // verus!
