//! Snapshot extraction: an immutable, transmission-ready view of the
//! world. Never mutates simulation state and is safe to call between
//! ticks. Hover state is recomputed per player from the host's current
//! point-containment queries, so the export reflects current positions
//! even for players that sent no input this tick.

use vstd::prelude::*;
use crate::world::{
    Boundary, Entity, EntityTag, Game, GrabJoint, PlayerAvatar, PlayerId, ShapeDesc, has_joint,
    find_joint,
};
use crate::tick::{HoverObservation, hover_pick, lookup_hover, pick_candidate};

verus! {

/// Tag value exported for ordinary grabbable entities.
pub const GRABBABLE_USER_DATA: u128 = 1;

/// Tag value exported for lethal ("death") entities.
pub const DEATH_USER_DATA: u128 = 2;

/// Exported shape discriminant.
#[derive(Clone, Copy, Debug, PartialEq, Eq)]
pub enum ShapeType {
    Square,
    Circle,
}

/// Exported player state.
#[derive(Clone, Copy, Debug, PartialEq, Eq)]
pub struct Player {
    pub id: PlayerId,
    pub x: i64,
    pub y: i64,
    pub is_grabbing: bool,
    pub is_over_grabbable: bool,
}

/// Exported non-avatar entity: pose, shape and semantic tag.
#[derive(Clone, Copy, Debug, PartialEq, Eq)]
pub struct PhysicsObject {
    pub id: u32,
    pub x: i64,
    pub y: i64,
    pub rotation: i64,
    pub shape: ShapeType,
    pub user_data: u128,
    pub half_width: Option<i64>,
    pub half_height: Option<i64>,
    pub radius: Option<i64>,
}

/// One tick's read-only export: players, non-avatar entities, boundaries.
#[derive(Debug, PartialEq)]
pub struct GameState {
    pub players: Vec<Player>,
    pub objects: Vec<PhysicsObject>,
    pub boundaries: Vec<Boundary>,
}

pub open spec fn user_data_of(tag: EntityTag) -> u128 {
    match tag {
        EntityTag::Grabbable => GRABBABLE_USER_DATA,
        EntityTag::Death => DEATH_USER_DATA,
    }
}

/// The export of one entity.
pub open spec fn object_of(e: Entity) -> PhysicsObject {
    match e.shape {
        ShapeDesc::Square { half_width, half_height } => PhysicsObject {
            id: e.id,
            x: e.x,
            y: e.y,
            rotation: e.rotation,
            shape: ShapeType::Square,
            user_data: user_data_of(e.tag),
            half_width: Some(half_width),
            half_height: Some(half_height),
            radius: None,
        },
        ShapeDesc::Circle { radius } => PhysicsObject {
            id: e.id,
            x: e.x,
            y: e.y,
            rotation: e.rotation,
            shape: ShapeType::Circle,
            user_data: user_data_of(e.tag),
            half_width: None,
            half_height: None,
            radius: Some(radius),
        },
    }
}

pub open spec fn objects_of(es: Seq<Entity>) -> Seq<PhysicsObject> {
    Seq::new(es.len(), |i: int| object_of(es[i]))
}

/// The export of one player: position, whether a grab joint is held, and
/// whether the current hover query finds a grabbable under the avatar.
pub open spec fn player_view(
    joints: Seq<GrabJoint>,
    entities: Seq<Entity>,
    hovers: Seq<HoverObservation>,
    p: PlayerAvatar,
) -> Player {
    Player {
        id: p.id,
        x: p.x,
        y: p.y,
        is_grabbing: has_joint(joints, p.id),
        is_over_grabbable: hover_pick(entities, hovers, p.id) is Some,
    }
}

pub open spec fn players_of(
    players: Seq<PlayerAvatar>,
    joints: Seq<GrabJoint>,
    entities: Seq<Entity>,
    hovers: Seq<HoverObservation>,
) -> Seq<Player> {
    Seq::new(players.len(), |i: int| player_view(joints, entities, hovers, players[i]))
}

impl Game {
    /// Exports the current world state: every non-avatar entity, every
    /// player with its grab and hover flags, and the boundary walls.
    /// Takes the world immutably, so two exports between mutations see
    /// the same state and yield the same snapshot.
    pub fn get_game_state(&self, hovers: &Vec<HoverObservation>) -> (r: GameState)
        requires
            self.wf(),
        ensures
            r.objects@ == objects_of(self.entities@),
            r.players@ == players_of(self.players@, self.grab_joints@, self.entities@, hovers@),
            r.boundaries@ == self.boundaries@,
    {
        let mut objects: Vec<PhysicsObject> = Vec::new();
        let mut k: usize = 0;
        while k < self.entities.len()
            invariant
                k <= self.entities@.len(),
                objects@ =~= objects_of(self.entities@).take(k as int),
            decreases self.entities@.len() - k,
        {
            let e = self.entities[k];
            let o = match e.shape {
                ShapeDesc::Square { half_width, half_height } => PhysicsObject {
                    id: e.id,
                    x: e.x,
                    y: e.y,
                    rotation: e.rotation,
                    shape: ShapeType::Square,
                    user_data: if matches!(e.tag, EntityTag::Death) {
                        DEATH_USER_DATA
                    } else {
                        GRABBABLE_USER_DATA
                    },
                    half_width: Some(half_width),
                    half_height: Some(half_height),
                    radius: None,
                },
                ShapeDesc::Circle { radius } => PhysicsObject {
                    id: e.id,
                    x: e.x,
                    y: e.y,
                    rotation: e.rotation,
                    shape: ShapeType::Circle,
                    user_data: if matches!(e.tag, EntityTag::Death) {
                        DEATH_USER_DATA
                    } else {
                        GRABBABLE_USER_DATA
                    },
                    half_width: None,
                    half_height: None,
                    radius: Some(radius),
                },
            };
            objects.push(o);
            proof {
                assert(objects@ =~= objects_of(self.entities@).take(k as int + 1));
            }
            k = k + 1;
        }
        proof {
            assert(objects@ =~= objects_of(self.entities@));
        }
        let mut players: Vec<Player> = Vec::new();
        let mut i: usize = 0;
        while i < self.players.len()
            invariant
                i <= self.players@.len(),
                self.wf(),
                players@ =~= players_of(
                    self.players@,
                    self.grab_joints@,
                    self.entities@,
                    hovers@,
                ).take(i as int),
            decreases self.players@.len() - i,
        {
            let p = self.players[i];
            let is_grabbing = find_joint(&self.grab_joints, p.id).is_some();
            let is_over_grabbable = match lookup_hover(hovers, p.id) {
                Some(h) => pick_candidate(&self.entities, &hovers[h].candidates).is_some(),
                None => false,
            };
            players.push(Player { id: p.id, x: p.x, y: p.y, is_grabbing, is_over_grabbable });
            proof {
                assert(players@ =~= players_of(
                    self.players@,
                    self.grab_joints@,
                    self.entities@,
                    hovers@,
                ).take(i as int + 1));
            }
            i = i + 1;
        }
        proof {
            assert(players@ =~= players_of(
                self.players@,
                self.grab_joints@,
                self.entities@,
                hovers@,
            ));
        }
        let mut boundaries: Vec<Boundary> = Vec::new();
        let mut b: usize = 0;
        while b < self.boundaries.len()
            invariant
                b <= self.boundaries@.len(),
                boundaries@ =~= self.boundaries@.take(b as int),
            decreases self.boundaries@.len() - b,
        {
            boundaries.push(self.boundaries[b]);
            b = b + 1;
        }
        proof {
            assert(boundaries@ =~= self.boundaries@);
        }
        GameState { players, objects, boundaries }
    }

    /// The grab joint currently held by `player_id`, if any.
    pub fn grab_joint_of(&self, player_id: PlayerId) -> (r: Option<GrabJoint>)
        requires
            self.wf(),
        ensures
            r == (if has_joint(self.grab_joints@, player_id) {
                Some(crate::world::joint_for(self.grab_joints@, player_id))
            } else {
                None::<GrabJoint>
            }),
    {
        match find_joint(&self.grab_joints, player_id) {
            Some(i) => {
                let j = self.grab_joints[i];
                proof {
                    let w = choose|w: int|
                        0 <= w < self.grab_joints@.len() && self.grab_joints@[w].player_id
                            == player_id;
                    assert(w == i as int);
                }
                Some(j)
            },
            None => None,
        }
    }
}

} // verus!
