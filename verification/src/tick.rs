//! The tick orchestrator: fixed-step sequencing of input application,
//! physics integration, grab resolution and input cleanup.
//!
//! The rigid-body engine is an external capability, so one tick is a
//! dialogue with the host: the host asks for [`Game::movement_requests`],
//! performs the collision-aware sweeps and the integration substeps in the
//! engine, gathers the resulting poses and the point-containment hover
//! queries into a [`TickObservations`], and hands them to [`Game::tick`],
//! which commits the movement, applies the grab/release transition table,
//! clears the consumed inputs and returns the joint actions the host must
//! mirror back into the engine.

use vstd::prelude::*;
use crate::world::{
    Entity, EntityTag, Game, GrabJoint, PlayerAvatar, PlayerId, QueuedInput, entity_for,
    has_entity, has_joint, has_pending, has_player, joint_for, keep_other_joints, pending_of,
    unique_joint_players, joints_without, find_input, find_joint, find_entity, joint_targets_ok,
};

verus! {

/// What a player's kinematic sweep came back with: the avatar's new,
/// collision-corrected position after sweeping the full frame displacement
/// against static boundary geometry.
#[derive(Clone, Copy, Debug, PartialEq, Eq)]
pub struct SweptPose {
    pub player_id: PlayerId,
    pub x: i64,
    pub y: i64,
}

/// An entity's pose and velocity as integrated by the engine this tick.
#[derive(Clone, Copy, Debug, PartialEq, Eq)]
pub struct EntityPose {
    pub entity_id: u32,
    pub x: i64,
    pub y: i64,
    pub rotation: i64,
    pub vx: i64,
    pub vy: i64,
    pub angular_velocity: i64,
}

/// One overlapping collider from the point-containment query under a
/// player's avatar: the entity hit, and the grab point expressed in that
/// entity's local frame at query time.
#[derive(Clone, Copy, Debug, PartialEq, Eq)]
pub struct GrabCandidate {
    pub entity_id: u32,
    pub anchor_x: i64,
    pub anchor_y: i64,
}

/// The hover query result for one player.
pub struct HoverObservation {
    pub player_id: PlayerId,
    pub candidates: Vec<GrabCandidate>,
}

/// Everything the engine observed during one tick, in the order the host
/// gathered it: sweep results, post-integration entity poses, and hover
/// queries at the settled positions.
pub struct TickObservations {
    pub swept: Vec<SweptPose>,
    pub entity_poses: Vec<EntityPose>,
    pub hovers: Vec<HoverObservation>,
}

/// A joint change the host must mirror into the engine.
#[derive(Clone, Copy, Debug, PartialEq, Eq)]
pub enum GrabAction {
    Create { player_id: PlayerId, entity_id: u32, anchor_x: i64, anchor_y: i64 },
    Release { player_id: PlayerId },
}

/// A sweep the host must run: move `player_id`'s avatar by the raw input
/// displacement, collision-corrected against the boundary walls only.
#[derive(Clone, Copy, Debug, PartialEq, Eq)]
pub struct MoveRequest {
    pub player_id: PlayerId,
    pub dx: i64,
    pub dy: i64,
}

/// First sweep result recorded for a player, if any.
pub open spec fn first_swept(s: Seq<SweptPose>, id: PlayerId) -> Option<SweptPose>
    decreases s.len(),
{
    if s.len() == 0 {
        None
    } else {
        let rest = first_swept(s.drop_last(), id);
        if rest is Some {
            rest
        } else if s.last().player_id == id {
            Some(s.last())
        } else {
            None
        }
    }
}

/// First pose recorded for an entity, if any.
pub open spec fn first_pose(s: Seq<EntityPose>, id: u32) -> Option<EntityPose>
    decreases s.len(),
{
    if s.len() == 0 {
        None
    } else {
        let rest = first_pose(s.drop_last(), id);
        if rest is Some {
            rest
        } else if s.last().entity_id == id {
            Some(s.last())
        } else {
            None
        }
    }
}

/// First hover query recorded for a player, if any.
pub open spec fn first_hover(s: Seq<HoverObservation>, id: PlayerId) -> Option<HoverObservation>
    decreases s.len(),
{
    if s.len() == 0 {
        None
    } else {
        let rest = first_hover(s.drop_last(), id);
        if rest is Some {
            rest
        } else if s.last().player_id == id {
            Some(s.last())
        } else {
            None
        }
    }
}

/// An entity that a grab may attach to: live, grabbable, and movable.
pub open spec fn valid_target(entities: Seq<Entity>, eid: u32) -> bool {
    &&& has_entity(entities, eid)
    &&& entity_for(entities, eid).tag == EntityTag::Grabbable
    &&& !entity_for(entities, eid).is_static
}

/// The candidate a grab selects: among the overlapping colliders that are
/// valid targets, the one with the lowest entity id — the documented
/// deterministic tie-break; among equal ids, the earliest observation.
pub open spec fn best_candidate(entities: Seq<Entity>, cands: Seq<GrabCandidate>) -> Option<
    GrabCandidate,
>
    decreases cands.len(),
{
    if cands.len() == 0 {
        None
    } else {
        let rest = best_candidate(entities, cands.drop_last());
        if valid_target(entities, cands.last().entity_id) {
            match rest {
                Some(c) => if cands.last().entity_id < c.entity_id {
                    Some(cands.last())
                } else {
                    Some(c)
                },
                None => Some(cands.last()),
            }
        } else {
            rest
        }
    }
}

/// What the hover query settles on for a player this tick.
pub open spec fn hover_pick(
    entities: Seq<Entity>,
    hovers: Seq<HoverObservation>,
    id: PlayerId,
) -> Option<GrabCandidate> {
    match first_hover(hovers, id) {
        Some(hv) => best_candidate(entities, hv.candidates@),
        None => None,
    }
}

/// Movement: a registered player with a pending input moves to the swept
/// position the engine reported; everyone else stays put.
pub open spec fn moved_player(
    p: PlayerAvatar,
    inputs: Seq<QueuedInput>,
    swept: Seq<SweptPose>,
) -> PlayerAvatar {
    if has_pending(inputs, p.id) {
        match first_swept(swept, p.id) {
            Some(sp) => PlayerAvatar { id: p.id, x: sp.x, y: sp.y },
            None => p,
        }
    } else {
        p
    }
}

pub open spec fn moved_players(
    players: Seq<PlayerAvatar>,
    inputs: Seq<QueuedInput>,
    swept: Seq<SweptPose>,
) -> Seq<PlayerAvatar> {
    Seq::new(players.len(), |i: int| moved_player(players[i], inputs, swept))
}

/// Integration: a movable entity takes the pose and velocity the engine
/// reported; static geometry never moves.
pub open spec fn posed_entity(e: Entity, poses: Seq<EntityPose>) -> Entity {
    if e.is_static {
        e
    } else {
        match first_pose(poses, e.id) {
            Some(ep) => Entity {
                x: ep.x,
                y: ep.y,
                rotation: ep.rotation,
                vx: ep.vx,
                vy: ep.vy,
                angular_velocity: ep.angular_velocity,
                ..e
            },
            None => e,
        }
    }
}

pub open spec fn posed_entities(entities: Seq<Entity>, poses: Seq<EntityPose>) -> Seq<Entity> {
    Seq::new(entities.len(), |i: int| posed_entity(entities[i], poses))
}

/// One player's turn in the grab resolution pass, against the joint set as
/// it stands when that player is processed: the grab/release transition
/// table. Button held with no joint while hovering a valid target creates
/// a joint anchored at the candidate; held otherwise is a no-op; released
/// destroys the player's joint if any.
pub open spec fn grab_step(
    joints: Seq<GrabJoint>,
    inputs: Seq<QueuedInput>,
    entities: Seq<Entity>,
    hovers: Seq<HoverObservation>,
    id: PlayerId,
) -> Seq<GrabJoint> {
    match pending_of(inputs, id) {
        Some(inp) => if inp.is_mouse_down {
            if !has_joint(joints, id) {
                match hover_pick(entities, hovers, id) {
                    Some(c) => joints.push(
                        GrabJoint {
                            player_id: id,
                            entity_id: c.entity_id,
                            anchor_x: c.anchor_x,
                            anchor_y: c.anchor_y,
                        },
                    ),
                    None => joints,
                }
            } else {
                joints
            }
        } else {
            joints_without(joints, id)
        },
        None => joints,
    }
}

/// The joint set after the grab resolution pass: each registered player
/// processed once, in registry order.
pub open spec fn grab_fold(
    joints: Seq<GrabJoint>,
    inputs: Seq<QueuedInput>,
    entities: Seq<Entity>,
    hovers: Seq<HoverObservation>,
    players: Seq<PlayerAvatar>,
) -> Seq<GrabJoint>
    decreases players.len(),
{
    if players.len() == 0 {
        joints
    } else {
        grab_step(
            grab_fold(joints, inputs, entities, hovers, players.drop_last()),
            inputs,
            entities,
            hovers,
            players.last().id,
        )
    }
}

/// The action a player's turn emits, against the joint set as it stands
/// when that player is processed.
pub open spec fn action_at(
    joints: Seq<GrabJoint>,
    inputs: Seq<QueuedInput>,
    entities: Seq<Entity>,
    hovers: Seq<HoverObservation>,
    id: PlayerId,
) -> Option<GrabAction> {
    match pending_of(inputs, id) {
        Some(inp) => if inp.is_mouse_down {
            if !has_joint(joints, id) {
                match hover_pick(entities, hovers, id) {
                    Some(c) => Some(
                        GrabAction::Create {
                            player_id: id,
                            entity_id: c.entity_id,
                            anchor_x: c.anchor_x,
                            anchor_y: c.anchor_y,
                        },
                    ),
                    None => None,
                }
            } else {
                None
            }
        } else {
            if has_joint(joints, id) {
                Some(GrabAction::Release { player_id: id })
            } else {
                None
            }
        },
        None => None,
    }
}

/// The joint actions one tick emits, in registry order.
pub open spec fn actions_fold(
    joints: Seq<GrabJoint>,
    inputs: Seq<QueuedInput>,
    entities: Seq<Entity>,
    hovers: Seq<HoverObservation>,
    players: Seq<PlayerAvatar>,
) -> Seq<GrabAction>
    decreases players.len(),
{
    if players.len() == 0 {
        Seq::empty()
    } else {
        let prev = actions_fold(joints, inputs, entities, hovers, players.drop_last());
        let mid = grab_fold(joints, inputs, entities, hovers, players.drop_last());
        match action_at(mid, inputs, entities, hovers, players.last().id) {
            Some(a) => prev.push(a),
            None => prev,
        }
    }
}

/// One sweep per registered player with a pending input, in registry
/// order, by the raw input displacement.
pub open spec fn requests_of_players(
    players: Seq<PlayerAvatar>,
    inputs: Seq<QueuedInput>,
) -> Seq<MoveRequest>
    decreases players.len(),
{
    if players.len() == 0 {
        Seq::empty()
    } else {
        let prev = requests_of_players(players.drop_last(), inputs);
        match pending_of(inputs, players.last().id) {
            Some(inp) => prev.push(
                MoveRequest { player_id: players.last().id, dx: inp.mouse_dx, dy: inp.mouse_dy },
            ),
            None => prev,
        }
    }
}

/// The sweeps one tick asks the engine for; none while paused.
pub open spec fn requests_of(g: Game) -> Seq<MoveRequest> {
    if g.paused {
        Seq::empty()
    } else {
        requests_of_players(g.players@, g.player_inputs@)
    }
}

/// A movable entity back at its spawn pose with zero velocity.
pub open spec fn respawned_entity(e: Entity) -> Entity {
    if e.is_static {
        e
    } else {
        Entity {
            x: e.spawn_x,
            y: e.spawn_y,
            rotation: e.spawn_rotation,
            vx: 0,
            vy: 0,
            angular_velocity: 0,
            ..e
        }
    }
}

fn lookup_swept(s: &Vec<SweptPose>, id: PlayerId) -> (r: Option<SweptPose>)
    ensures
        r == first_swept(s@, id),
{
    let mut r: Option<SweptPose> = None;
    let mut i: usize = 0;
    while i < s.len()
        invariant
            i <= s@.len(),
            r == first_swept(s@.take(i as int), id),
        decreases s@.len() - i,
    {
        proof {
            assert(s@.take(i as int + 1).drop_last() =~= s@.take(i as int));
        }
        if r.is_none() && s[i].player_id == id {
            r = Some(s[i]);
        }
        proof {
            assert(r == first_swept(s@.take(i as int + 1), id));
        }
        i = i + 1;
    }
    proof {
        assert(s@.take(s@.len() as int) =~= s@);
    }
    r
}

fn lookup_pose(s: &Vec<EntityPose>, id: u32) -> (r: Option<EntityPose>)
    ensures
        r == first_pose(s@, id),
{
    let mut r: Option<EntityPose> = None;
    let mut i: usize = 0;
    while i < s.len()
        invariant
            i <= s@.len(),
            r == first_pose(s@.take(i as int), id),
        decreases s@.len() - i,
    {
        proof {
            assert(s@.take(i as int + 1).drop_last() =~= s@.take(i as int));
        }
        if r.is_none() && s[i].entity_id == id {
            r = Some(s[i]);
        }
        proof {
            assert(r == first_pose(s@.take(i as int + 1), id));
        }
        i = i + 1;
    }
    proof {
        assert(s@.take(s@.len() as int) =~= s@);
    }
    r
}

pub(crate) fn lookup_hover(s: &Vec<HoverObservation>, id: PlayerId) -> (r: Option<usize>)
    ensures
        match r {
            Some(i) => i < s@.len() && first_hover(s@, id) == Some(s@[i as int]),
            None => first_hover(s@, id) is None,
        },
{
    let mut r: Option<usize> = None;
    let mut i: usize = 0;
    while i < s.len()
        invariant
            i <= s@.len(),
            match r {
                Some(k) => k < i && first_hover(s@.take(i as int), id) == Some(s@[k as int]),
                None => first_hover(s@.take(i as int), id) is None,
            },
        decreases s@.len() - i,
    {
        proof {
            assert(s@.take(i as int + 1).drop_last() =~= s@.take(i as int));
        }
        if r.is_none() && s[i].player_id == id {
            r = Some(i);
        }
        proof {
            assert(match r {
                Some(k) => first_hover(s@.take(i as int + 1), id) == Some(s@[k as int]),
                None => first_hover(s@.take(i as int + 1), id) is None,
            });
        }
        i = i + 1;
    }
    proof {
        assert(s@.take(s@.len() as int) =~= s@);
    }
    r
}

/// Selects the grab candidate with the lowest entity id among the valid
/// targets; earliest observation wins among equal ids.
pub(crate) fn pick_candidate(entities: &Vec<Entity>, cands: &Vec<GrabCandidate>) -> (r: Option<GrabCandidate>)
    requires
        crate::world::unique_entity_ids(entities@),
    ensures
        r == best_candidate(entities@, cands@),
{
    let mut r: Option<GrabCandidate> = None;
    let mut i: usize = 0;
    while i < cands.len()
        invariant
            i <= cands@.len(),
            crate::world::unique_entity_ids(entities@),
            r == best_candidate(entities@, cands@.take(i as int)),
        decreases cands@.len() - i,
    {
        proof {
            assert(cands@.take(i as int + 1).drop_last() =~= cands@.take(i as int));
        }
        let c = cands[i];
        let valid = match find_entity(entities, c.entity_id) {
            Some(k) => {
                proof {
                    let w = choose|w: int|
                        0 <= w < entities@.len() && entities@[w].id == c.entity_id;
                    assert(w == k as int);
                }
                matches!(entities[k].tag, EntityTag::Grabbable) && !entities[k].is_static
            },
            None => false,
        };
        proof {
            assert(valid == valid_target(entities@, c.entity_id));
        }
        if valid {
            match r {
                Some(b) => {
                    if c.entity_id < b.entity_id {
                        r = Some(c);
                    }
                },
                None => {
                    r = Some(c);
                },
            }
        }
        proof {
            assert(r == best_candidate(entities@, cands@.take(i as int + 1)));
        }
        i = i + 1;
    }
    proof {
        assert(cands@.take(cands@.len() as int) =~= cands@);
    }
    r
}

impl Game {
    /// The kinematic sweeps the host must run before integrating this
    /// tick: one per registered player with a pending input, by the raw
    /// input displacement, filtered to the boundary walls. Empty while
    /// paused. The full per-tick displacement goes into one sweep per
    /// avatar, not one per substep.
    pub fn movement_requests(&self) -> (r: Vec<MoveRequest>)
        requires
            self.wf(),
        ensures
            r@ == requests_of(*self),
    {
        let mut r: Vec<MoveRequest> = Vec::new();
        if self.paused {
            return r;
        }
        let mut i: usize = 0;
        while i < self.players.len()
            invariant
                i <= self.players@.len(),
                self.wf(),
                !self.paused,
                r@ == requests_of_players(self.players@.take(i as int), self.player_inputs@),
            decreases self.players@.len() - i,
        {
            proof {
                assert(self.players@.take(i as int + 1).drop_last() =~= self.players@.take(
                    i as int,
                ));
            }
            let p = self.players[i];
            match find_input(&self.player_inputs, p.id) {
                Some(k) => {
                    let q = self.player_inputs[k];
                    proof {
                        let w = choose|w: int|
                            0 <= w < self.player_inputs@.len()
                                && self.player_inputs@[w].player_id == p.id;
                        assert(w == k as int);
                    }
                    r.push(
                        MoveRequest { player_id: p.id, dx: q.input.mouse_dx, dy: q.input.mouse_dy },
                    );
                },
                None => {},
            }
            proof {
                assert(r@ == requests_of_players(
                    self.players@.take(i as int + 1),
                    self.player_inputs@,
                ));
            }
            i = i + 1;
        }
        proof {
            assert(self.players@.take(self.players@.len() as int) =~= self.players@);
        }
        r
    }

    /// Resets every movable entity to its spawn pose with zero linear and
    /// angular velocity, leaving boundaries, players, joints and static
    /// geometry untouched. A no-op while paused.
    pub fn restart(&mut self)
        requires
            old(self).wf(),
        ensures
            final(self).wf(),
            old(self).paused ==> *final(self) == *old(self),
            !old(self).paused ==> ({
                &&& final(self).entities@ == Seq::new(
                    old(self).entities@.len(),
                    |i: int| respawned_entity(old(self).entities@[i]),
                )
                &&& final(self).players@ == old(self).players@
                &&& final(self).grab_joints@ == old(self).grab_joints@
                &&& final(self).player_inputs@ == old(self).player_inputs@
                &&& Game::same_config(*old(self), *final(self))
            }),
    {
        if self.paused {
            return ;
        }
        let mut k: usize = 0;
        while k < self.entities.len()
            invariant
                k <= self.entities@.len(),
                self.entities@.len() == old(self).entities@.len(),
                forall|j: int|
                    0 <= j < k ==> self.entities@[j] == respawned_entity(
                        #[trigger] old(self).entities@[j],
                    ),
                forall|j: int| k <= j < self.entities@.len() ==> self.entities@[j] == old(
                    self,
                ).entities@[j],
                self.players@ == old(self).players@,
                self.grab_joints@ == old(self).grab_joints@,
                self.player_inputs@ == old(self).player_inputs@,
                self.paused == old(self).paused,
                self.gravity_x == old(self).gravity_x,
                self.gravity_y == old(self).gravity_y,
                self.substeps == old(self).substeps,
                self.boundaries@ == old(self).boundaries@,
            decreases self.entities@.len() - k,
        {
            let e = self.entities[k];
            if !e.is_static {
                let mut r = e;
                r.x = e.spawn_x;
                r.y = e.spawn_y;
                r.rotation = e.spawn_rotation;
                r.vx = 0;
                r.vy = 0;
                r.angular_velocity = 0;
                self.entities.set(k, r);
            }
            k = k + 1;
        }
        proof {
            assert(self.entities@ =~= Seq::new(
                old(self).entities@.len(),
                |i: int| respawned_entity(old(self).entities@[i]),
            ));
            lemma_restart_wf(*old(self), *self);
        }
    }
}

/// Whatever the grab selects is a valid target.
pub proof fn lemma_best_candidate_valid(entities: Seq<Entity>, cands: Seq<GrabCandidate>)
    ensures
        match best_candidate(entities, cands) {
            Some(c) => valid_target(entities, c.entity_id),
            None => true,
        },
    decreases cands.len(),
{
    if cands.len() > 0 {
        lemma_best_candidate_valid(entities, cands.drop_last());
    }
}

impl Game {
    /// One simulation tick over the engine's observations, in the fixed
    /// order: commit the collision-corrected sweep of every registered
    /// player that had a pending input; commit the integrated poses of the
    /// movable entities; resolve grab and release per the transition
    /// table, player by player in registry order; clear every queued
    /// input. Returns the joint changes the host must mirror into the
    /// engine. A no-op while paused: the queued inputs are kept.
    pub fn tick(&mut self, obs: &TickObservations) -> (actions: Vec<GrabAction>)
        requires
            old(self).wf(),
        ensures
            final(self).wf(),
            old(self).paused ==> *final(self) == *old(self) && actions@ == Seq::<
                GrabAction,
            >::empty(),
            !old(self).paused ==> ({
                &&& final(self).players@ == moved_players(
                    old(self).players@,
                    old(self).player_inputs@,
                    obs.swept@,
                )
                &&& final(self).entities@ == posed_entities(
                    old(self).entities@,
                    obs.entity_poses@,
                )
                &&& final(self).grab_joints@ == grab_fold(
                    old(self).grab_joints@,
                    old(self).player_inputs@,
                    posed_entities(old(self).entities@, obs.entity_poses@),
                    obs.hovers@,
                    old(self).players@,
                )
                &&& actions@ == actions_fold(
                    old(self).grab_joints@,
                    old(self).player_inputs@,
                    posed_entities(old(self).entities@, obs.entity_poses@),
                    obs.hovers@,
                    old(self).players@,
                )
                &&& final(self).player_inputs@ == Seq::<QueuedInput>::empty()
                &&& final(self).paused == old(self).paused
                &&& final(self).gravity_x == old(self).gravity_x
                &&& final(self).gravity_y == old(self).gravity_y
                &&& final(self).substeps == old(self).substeps
                &&& final(self).boundaries@ == old(self).boundaries@
            }),
    {
        let mut actions: Vec<GrabAction> = Vec::new();
        if self.paused {
            return actions;
        }
        let mut i: usize = 0;
        while i < self.players.len()
            invariant
                i <= self.players@.len(),
                self.players@.len() == old(self).players@.len(),
                forall|j: int|
                    0 <= j < i ==> self.players@[j] == moved_player(
                        #[trigger] old(self).players@[j],
                        old(self).player_inputs@,
                        obs.swept@,
                    ),
                forall|j: int|
                    i <= j < self.players@.len() ==> self.players@[j] == old(self).players@[j],
                self.player_inputs@ == old(self).player_inputs@,
                self.grab_joints@ == old(self).grab_joints@,
                self.entities@ == old(self).entities@,
                self.boundaries@ == old(self).boundaries@,
                self.paused == old(self).paused,
                self.gravity_x == old(self).gravity_x,
                self.gravity_y == old(self).gravity_y,
                self.substeps == old(self).substeps,
            decreases self.players@.len() - i,
        {
            let p = self.players[i];
            match find_input(&self.player_inputs, p.id) {
                Some(_k) => {
                    match lookup_swept(&obs.swept, p.id) {
                        Some(sp) => {
                            self.players.set(i, PlayerAvatar { id: p.id, x: sp.x, y: sp.y });
                        },
                        None => {},
                    }
                },
                None => {},
            }
            i = i + 1;
        }
        proof {
            assert(self.players@ =~= moved_players(
                old(self).players@,
                old(self).player_inputs@,
                obs.swept@,
            ));
        }
        let ghost players1 = self.players@;
        let mut k: usize = 0;
        while k < self.entities.len()
            invariant
                k <= self.entities@.len(),
                self.entities@.len() == old(self).entities@.len(),
                forall|j: int|
                    0 <= j < k ==> self.entities@[j] == posed_entity(
                        #[trigger] old(self).entities@[j],
                        obs.entity_poses@,
                    ),
                forall|j: int|
                    k <= j < self.entities@.len() ==> self.entities@[j] == old(self).entities@[j],
                self.players@ == players1,
                self.player_inputs@ == old(self).player_inputs@,
                self.grab_joints@ == old(self).grab_joints@,
                self.boundaries@ == old(self).boundaries@,
                self.paused == old(self).paused,
                self.gravity_x == old(self).gravity_x,
                self.gravity_y == old(self).gravity_y,
                self.substeps == old(self).substeps,
            decreases self.entities@.len() - k,
        {
            let e = self.entities[k];
            if !e.is_static {
                match lookup_pose(&obs.entity_poses, e.id) {
                    Some(ep) => {
                        let mut r = e;
                        r.x = ep.x;
                        r.y = ep.y;
                        r.rotation = ep.rotation;
                        r.vx = ep.vx;
                        r.vy = ep.vy;
                        r.angular_velocity = ep.angular_velocity;
                        self.entities.set(k, r);
                    },
                    None => {},
                }
            }
            k = k + 1;
        }
        proof {
            assert(self.entities@ =~= posed_entities(old(self).entities@, obs.entity_poses@));
        }
        let ghost entities1 = self.entities@;
        let ghost joints0 = self.grab_joints@;
        proof {
            assert forall|a: int, b: int|
                0 <= a < b < entities1.len() implies entities1[a].id != entities1[b].id by {
                assert(entities1[a] == posed_entity(old(self).entities@[a], obs.entity_poses@));
                assert(entities1[b] == posed_entity(old(self).entities@[b], obs.entity_poses@));
            }
            assert forall|t: int|
                0 <= t < joints0.len() implies has_player(
                players1,
                (#[trigger] joints0[t]).player_id,
            ) && valid_target(entities1, joints0[t].entity_id) by {
                let jt = joints0[t];
                assert(joint_targets_ok(*old(self), jt));
                let w = choose|w: int|
                    0 <= w < old(self).players@.len() && old(self).players@[w].id == jt.player_id;
                assert(players1[w] == moved_player(
                    old(self).players@[w],
                    old(self).player_inputs@,
                    obs.swept@,
                ));
                assert(players1[w].id == jt.player_id);
                let k = choose|k: int|
                    0 <= k < old(self).entities@.len() && old(self).entities@[k].id
                        == jt.entity_id;
                assert(entities1[k] == posed_entity(old(self).entities@[k], obs.entity_poses@));
                assert(entities1[k].id == jt.entity_id);
                assert(has_entity(entities1, jt.entity_id));
                let m = choose|m: int|
                    0 <= m < entities1.len() && entities1[m].id == jt.entity_id;
                assert(m == k);
                assert(entity_for(entities1, jt.entity_id) == entities1[k]);
                assert(entity_for(old(self).entities@, jt.entity_id) == old(self).entities@[k]);
            }
        }
        let mut i: usize = 0;
        while i < self.players.len()
            invariant
                i <= self.players@.len(),
                old(self).wf(),
                crate::world::unique_entity_ids(entities1),
                self.players@ == players1,
                self.entities@ == entities1,
                players1 == moved_players(
                    old(self).players@,
                    old(self).player_inputs@,
                    obs.swept@,
                ),
                entities1 == posed_entities(old(self).entities@, obs.entity_poses@),
                joints0 == old(self).grab_joints@,
                self.player_inputs@ == old(self).player_inputs@,
                self.grab_joints@ == grab_fold(
                    joints0,
                    old(self).player_inputs@,
                    entities1,
                    obs.hovers@,
                    old(self).players@.take(i as int),
                ),
                actions@ == actions_fold(
                    joints0,
                    old(self).player_inputs@,
                    entities1,
                    obs.hovers@,
                    old(self).players@.take(i as int),
                ),
                unique_joint_players(self.grab_joints@),
                forall|t: int|
                    0 <= t < self.grab_joints@.len() ==> has_player(
                        players1,
                        (#[trigger] self.grab_joints@[t]).player_id,
                    ) && valid_target(entities1, self.grab_joints@[t].entity_id),
                self.boundaries@ == old(self).boundaries@,
                self.paused == old(self).paused,
                self.gravity_x == old(self).gravity_x,
                self.gravity_y == old(self).gravity_y,
                self.substeps == old(self).substeps,
            decreases self.players@.len() - i,
        {
            proof {
                assert(old(self).players@.take(i as int + 1).drop_last() =~= old(
                    self,
                ).players@.take(i as int));
                assert(self.players@[i as int] == moved_player(
                    old(self).players@[i as int],
                    old(self).player_inputs@,
                    obs.swept@,
                ));
            }
            let pid = self.players[i].id;
            proof {
                assert(pid == old(self).players@[i as int].id);
            }
            let ghost joints_mid = self.grab_joints@;
            match find_input(&self.player_inputs, pid) {
                None => {},
                Some(qi) => {
                    let inp = self.player_inputs[qi].input;
                    proof {
                        let w = choose|w: int|
                            0 <= w < self.player_inputs@.len()
                                && self.player_inputs@[w].player_id == pid;
                        assert(w == qi as int);
                        assert(pending_of(old(self).player_inputs@, pid) == Some(inp));
                    }
                    if inp.is_mouse_down {
                        match find_joint(&self.grab_joints, pid) {
                            Some(_j) => {},
                            None => {
                                match lookup_hover(&obs.hovers, pid) {
                                    Some(hidx) => {
                                        match pick_candidate(
                                            &self.entities,
                                            &obs.hovers[hidx].candidates,
                                        ) {
                                            Some(c) => {
                                                proof {
                                                    lemma_best_candidate_valid(
                                                        entities1,
                                                        obs.hovers@[hidx as int].candidates@,
                                                    );
                                                }
                                                self.grab_joints.push(
                                                    GrabJoint {
                                                        player_id: pid,
                                                        entity_id: c.entity_id,
                                                        anchor_x: c.anchor_x,
                                                        anchor_y: c.anchor_y,
                                                    },
                                                );
                                                actions.push(
                                                    GrabAction::Create {
                                                        player_id: pid,
                                                        entity_id: c.entity_id,
                                                        anchor_x: c.anchor_x,
                                                        anchor_y: c.anchor_y,
                                                    },
                                                );
                                                proof {
                                                    assert forall|t: int|
                                                        0 <= t < self.grab_joints@.len()
                                                            implies has_player(
                                                        players1,
                                                        (
                                                        #[trigger] self.grab_joints@[t]).player_id,
                                                    ) && valid_target(
                                                        entities1,
                                                        self.grab_joints@[t].entity_id,
                                                    ) by {
                                                        if t < joints_mid.len() {
                                                            assert(self.grab_joints@[t]
                                                                == joints_mid[t]);
                                                        } else {
                                                            assert(players1[i as int].id == pid);
                                                        }
                                                    }
                                                }
                                            },
                                            None => {},
                                        }
                                    },
                                    None => {},
                                }
                            },
                        }
                    } else {
                        match find_joint(&self.grab_joints, pid) {
                            Some(jidx) => {
                                self.grab_joints.remove(jidx);
                                actions.push(GrabAction::Release { player_id: pid });
                                proof {
                                    crate::seqtools::lemma_remove_one_is_filter(
                                        joints_mid,
                                        keep_other_joints(pid),
                                        jidx as int,
                                    );
                                    crate::seqtools::lemma_filter_unique_keys(
                                        joints_mid,
                                        keep_other_joints(pid),
                                        (|j: GrabJoint| j.player_id),
                                    );
                                    assert forall|t: int|
                                        0 <= t < self.grab_joints@.len() implies has_player(
                                        players1,
                                        (#[trigger] self.grab_joints@[t]).player_id,
                                    ) && valid_target(
                                        entities1,
                                        self.grab_joints@[t].entity_id,
                                    ) by {
                                        let w = choose|w: int|
                                            0 <= w < joints_mid.len() && self.grab_joints@[t]
                                                == joints_mid[w];
                                        assert(has_player(players1, joints_mid[w].player_id));
                                    }
                                }
                            },
                            None => {
                                proof {
                                    crate::seqtools::lemma_filter_all_kept(
                                        joints_mid,
                                        keep_other_joints(pid),
                                    );
                                }
                            },
                        }
                    }
                },
            }
            proof {
                assert(self.grab_joints@ == grab_fold(
                    joints0,
                    old(self).player_inputs@,
                    entities1,
                    obs.hovers@,
                    old(self).players@.take(i as int + 1),
                ));
                assert(actions@ == actions_fold(
                    joints0,
                    old(self).player_inputs@,
                    entities1,
                    obs.hovers@,
                    old(self).players@.take(i as int + 1),
                ));
            }
            i = i + 1;
        }
        proof {
            assert(old(self).players@.take(old(self).players@.len() as int) =~= old(
                self,
            ).players@);
        }
        self.player_inputs.clear();
        proof {
            lemma_tick_wf(*old(self), *self, players1, entities1);
        }
        actions
    }
}

/// The tick's phases keep the world well-formed: movement and integration
/// preserve every id, the grab pass maintains joint uniqueness and target
/// validity as loop invariants, and the input queue ends empty.
proof fn lemma_tick_wf(a: Game, b: Game, players1: Seq<PlayerAvatar>, entities1: Seq<Entity>)
    requires
        a.wf(),
        b.players@ == players1,
        b.entities@ == entities1,
        players1.len() == a.players@.len(),
        forall|j: int|
            0 <= j < players1.len() ==> (#[trigger] players1[j]).id == a.players@[j].id,
        entities1.len() == a.entities@.len(),
        forall|j: int|
            0 <= j < entities1.len() ==> (#[trigger] entities1[j]).id == a.entities@[j].id,
        unique_joint_players(b.grab_joints@),
        forall|t: int|
            0 <= t < b.grab_joints@.len() ==> has_player(
                players1,
                (#[trigger] b.grab_joints@[t]).player_id,
            ) && valid_target(entities1, b.grab_joints@[t].entity_id),
        b.player_inputs@ == Seq::<QueuedInput>::empty(),
        b.boundaries@ == a.boundaries@,
    ensures
        b.wf(),
{
    assert forall|i: int, j: int|
        0 <= i < j < b.players@.len() implies b.players@[i].id != b.players@[j].id by {
        assert(players1[i].id == a.players@[i].id);
        assert(players1[j].id == a.players@[j].id);
    }
    assert forall|i: int, j: int|
        0 <= i < j < b.entities@.len() implies b.entities@[i].id != b.entities@[j].id by {
        assert(entities1[i].id == a.entities@[i].id);
        assert(entities1[j].id == a.entities@[j].id);
    }
    assert forall|i: int|
        0 <= i < b.grab_joints@.len() implies joint_targets_ok(b, #[trigger] b.grab_joints@[i]) by {
        assert(has_player(players1, b.grab_joints@[i].player_id));
        assert(valid_target(entities1, b.grab_joints@[i].entity_id));
    }
}

/// Respawning changes only poses and velocities, so well-formedness
/// survives: ids, tags and static flags are untouched.
proof fn lemma_restart_wf(a: Game, b: Game)
    requires
        a.wf(),
        b.entities@ == Seq::new(a.entities@.len(), |i: int| respawned_entity(a.entities@[i])),
        b.players@ == a.players@,
        b.grab_joints@ == a.grab_joints@,
        b.player_inputs@ == a.player_inputs@,
        b.boundaries@ == a.boundaries@,
    ensures
        b.wf(),
{
    assert forall|i: int, j: int|
        0 <= i < j < b.entities@.len() implies b.entities@[i].id != b.entities@[j].id by {
        assert(b.entities@[i].id == a.entities@[i].id);
        assert(b.entities@[j].id == a.entities@[j].id);
    }
    assert forall|i: int|
        0 <= i < b.grab_joints@.len() implies joint_targets_ok(b, #[trigger] b.grab_joints@[i]) by {
        let jt = b.grab_joints@[i];
        assert(joint_targets_ok(a, jt));
        let k = choose|k: int| 0 <= k < a.entities@.len() && a.entities@[k].id == jt.entity_id;
        assert(b.entities@[k].id == jt.entity_id);
        assert(has_entity(b.entities@, jt.entity_id));
        let w = choose|w: int| 0 <= w < b.entities@.len() && b.entities@[w].id == jt.entity_id;
        assert(w == k);
        assert(entity_for(b.entities@, jt.entity_id) == b.entities@[k]);
        assert(b.entities@[k] == respawned_entity(a.entities@[k]));
        let w0 = choose|w: int| 0 <= w < a.entities@.len() && a.entities@[w].id == jt.entity_id;
        assert(w0 == k);
        assert(entity_for(a.entities@, jt.entity_id) == a.entities@[k]);
    }
}

} // verus!
