//! The simulation world: entity and player state, registries, and the
//! player lifecycle operations (join, leave, input submission, pause).

use vstd::prelude::*;

verus! {

/// Stable player identity, assigned by the connection boundary.
/// Monotonically increasing there; never reused within a process lifetime.
pub type PlayerId = u32;

/// Latest-wins per-tick input record: cursor displacement (thousandths of a
/// world unit) and the state of the grab button.
#[derive(Clone, Copy, Debug, PartialEq, Eq)]
pub struct PlayerInput {
    pub mouse_dx: i64,
    pub mouse_dy: i64,
    pub is_mouse_down: bool,
}

/// Distinguishes ordinary grabbable bodies from lethal ("death") ones.
#[derive(Clone, Copy, Debug, PartialEq, Eq)]
pub enum EntityTag {
    Grabbable,
    Death,
}

/// Collision shape of an entity, in thousandths of a world unit.
#[derive(Clone, Copy, Debug, PartialEq, Eq)]
pub enum ShapeDesc {
    Square { half_width: i64, half_height: i64 },
    Circle { radius: i64 },
}

/// A physics entity: a movable block or a static obstacle. The pose and
/// velocity fields mirror the engine's state after each tick; the spawn
/// fields keep the pose the entity was built with, for `restart`.
#[derive(Clone, Copy, Debug, PartialEq, Eq)]
pub struct Entity {
    pub id: u32,
    pub x: i64,
    pub y: i64,
    pub rotation: i64,
    pub vx: i64,
    pub vy: i64,
    pub angular_velocity: i64,
    pub spawn_x: i64,
    pub spawn_y: i64,
    pub spawn_rotation: i64,
    pub shape: ShapeDesc,
    pub tag: EntityTag,
    pub is_static: bool,
    /// Restitution in thousandths (1000 = perfectly elastic).
    pub restitution: i64,
}

/// A static boundary wall: centre position and half-extents, in thousandths
/// of a world unit. Immutable after world construction.
#[derive(Clone, Copy, Debug, PartialEq, Eq)]
pub struct Boundary {
    pub x: i64,
    pub y: i64,
    pub half_width: i64,
    pub half_height: i64,
}

/// A player's kinematic avatar: the registry entry mapping the player id to
/// its in-world position.
#[derive(Clone, Copy, Debug, PartialEq, Eq)]
pub struct PlayerAvatar {
    pub id: PlayerId,
    pub x: i64,
    pub y: i64,
}

/// A drag constraint linking a player's avatar to a grabbed entity. The
/// anchor is the grabbed point in the entity's local frame, fixed at grab
/// time so the point tracks the entity's rotation thereafter.
#[derive(Clone, Copy, Debug, PartialEq, Eq)]
pub struct GrabJoint {
    pub player_id: PlayerId,
    pub entity_id: u32,
    pub anchor_x: i64,
    pub anchor_y: i64,
}

/// A queued input: the most recent record received from a player since the
/// last tick consumed it.
#[derive(Clone, Copy, Debug, PartialEq, Eq)]
pub struct QueuedInput {
    pub player_id: PlayerId,
    pub input: PlayerInput,
}

/// The full simulation state. Exactly one instance per running game; all
/// mutation goes through its methods, under the caller's exclusive access.
pub struct Game {
    /// While paused, ticks, restarts and input submission are no-ops;
    /// state export and player join/leave remain available.
    pub paused: bool,
    pub gravity_x: i64,
    pub gravity_y: i64,
    /// Number of equal integration sub-intervals per outer tick.
    pub substeps: u32,
    /// The four boundary walls; never change after construction.
    pub boundaries: Vec<Boundary>,
    /// All non-avatar entities, in build order; ids are the build indices
    /// and stay stable for the lifetime of the world.
    pub entities: Vec<Entity>,
    /// The player registry: one avatar per registered id.
    pub players: Vec<PlayerAvatar>,
    /// The joint registry: at most one grab joint per player.
    pub grab_joints: Vec<GrabJoint>,
    /// The queued inputs, one slot per sender; written through
    /// `apply_input` and drained by `tick`.
    pub player_inputs: Vec<QueuedInput>,
}

pub open spec fn has_player(s: Seq<PlayerAvatar>, id: PlayerId) -> bool {
    exists|i: int| 0 <= i < s.len() && s[i].id == id
}

pub open spec fn has_joint(s: Seq<GrabJoint>, id: PlayerId) -> bool {
    exists|i: int| 0 <= i < s.len() && s[i].player_id == id
}

pub open spec fn joint_for(s: Seq<GrabJoint>, id: PlayerId) -> GrabJoint
    recommends
        has_joint(s, id),
{
    s[choose|i: int| 0 <= i < s.len() && s[i].player_id == id]
}

pub open spec fn has_entity(s: Seq<Entity>, id: u32) -> bool {
    exists|i: int| 0 <= i < s.len() && s[i].id == id
}

pub open spec fn entity_for(s: Seq<Entity>, id: u32) -> Entity
    recommends
        has_entity(s, id),
{
    s[choose|i: int| 0 <= i < s.len() && s[i].id == id]
}

pub open spec fn has_pending(s: Seq<QueuedInput>, id: PlayerId) -> bool {
    exists|i: int| 0 <= i < s.len() && s[i].player_id == id
}

/// The pending input of a player, if any: the abstract "latest wins" slot.
pub open spec fn pending_of(s: Seq<QueuedInput>, id: PlayerId) -> Option<PlayerInput> {
    if has_pending(s, id) {
        Some(s[choose|i: int| 0 <= i < s.len() && s[i].player_id == id].input)
    } else {
        None
    }
}

pub open spec fn unique_player_ids(s: Seq<PlayerAvatar>) -> bool {
    forall|i: int, j: int| 0 <= i < j < s.len() ==> s[i].id != s[j].id
}

pub open spec fn unique_joint_players(s: Seq<GrabJoint>) -> bool {
    forall|i: int, j: int| 0 <= i < j < s.len() ==> s[i].player_id != s[j].player_id
}

pub open spec fn unique_input_players(s: Seq<QueuedInput>) -> bool {
    forall|i: int, j: int| 0 <= i < j < s.len() ==> s[i].player_id != s[j].player_id
}

pub open spec fn unique_entity_ids(s: Seq<Entity>) -> bool {
    forall|i: int, j: int| 0 <= i < j < s.len() ==> s[i].id != s[j].id
}

/// Keeps every registry entry except the one for `id`.
pub open spec fn keep_other_players(id: PlayerId) -> spec_fn(PlayerAvatar) -> bool {
    |p: PlayerAvatar| p.id != id
}

pub open spec fn keep_other_joints(id: PlayerId) -> spec_fn(GrabJoint) -> bool {
    |j: GrabJoint| j.player_id != id
}

pub open spec fn keep_other_inputs(id: PlayerId) -> spec_fn(QueuedInput) -> bool {
    |q: QueuedInput| q.player_id != id
}

/// The player registry with the entry for `id` dropped.
pub open spec fn players_without(s: Seq<PlayerAvatar>, id: PlayerId) -> Seq<PlayerAvatar> {
    s.filter(keep_other_players(id))
}

/// The joint registry with the joint held by `id` dropped.
pub open spec fn joints_without(s: Seq<GrabJoint>, id: PlayerId) -> Seq<GrabJoint> {
    s.filter(keep_other_joints(id))
}

/// The input queue with the slot of `id` dropped.
pub open spec fn inputs_without(s: Seq<QueuedInput>, id: PlayerId) -> Seq<QueuedInput> {
    s.filter(keep_other_inputs(id))
}

/// The slot index holding the input of `id` (meaningful only when present).
pub open spec fn input_slot(s: Seq<QueuedInput>, id: PlayerId) -> int {
    choose|i: int| 0 <= i < s.len() && s[i].player_id == id
}

/// A joint may only hold a movable grabbable entity for a registered player.
pub open spec fn joint_targets_ok(g: Game, j: GrabJoint) -> bool {
    &&& has_player(g.players@, j.player_id)
    &&& has_entity(g.entities@, j.entity_id)
    &&& entity_for(g.entities@, j.entity_id).tag == EntityTag::Grabbable
    &&& !entity_for(g.entities@, j.entity_id).is_static
}

impl Game {
    /// Well-formedness: every registry is keyed uniquely, every joint
    /// references a registered player and a live movable grabbable entity,
    /// and the world is enclosed by exactly four walls.
    pub open spec fn wf(&self) -> bool {
        &&& unique_player_ids(self.players@)
        &&& unique_joint_players(self.grab_joints@)
        &&& unique_input_players(self.player_inputs@)
        &&& unique_entity_ids(self.entities@)
        &&& forall|i: int|
            0 <= i < self.grab_joints@.len() ==> joint_targets_ok(*self, #[trigger] self.grab_joints@[i])
        &&& self.boundaries@.len() == 4
    }

    /// Configuration and static geometry equal: pause flag, gravity,
    /// substep count and boundary walls.
    pub open spec fn same_config(a: Game, b: Game) -> bool {
        &&& a.paused == b.paused
        &&& a.gravity_x == b.gravity_x
        &&& a.gravity_y == b.gravity_y
        &&& a.substeps == b.substeps
        &&& a.boundaries@ == b.boundaries@
    }
}

/// The per-joint world conditions only read the player registry, the
/// entities and the joint list; they survive any change that keeps the
/// registered players (or grows them), the entities and the joints.
pub proof fn lemma_joints_ok_frame(a: Game, b: Game)
    requires
        forall|i: int|
            0 <= i < a.grab_joints@.len() ==> joint_targets_ok(a, #[trigger] a.grab_joints@[i]),
        forall|id: PlayerId| has_player(a.players@, id) ==> has_player(b.players@, id),
        b.entities@ == a.entities@,
        b.grab_joints@ == a.grab_joints@,
    ensures
        forall|i: int|
            0 <= i < b.grab_joints@.len() ==> joint_targets_ok(b, #[trigger] b.grab_joints@[i]),
{
    assert forall|i: int|
        0 <= i < b.grab_joints@.len() implies joint_targets_ok(b, #[trigger] b.grab_joints@[i]) by {
        assert(joint_targets_ok(a, a.grab_joints@[i]));
    }
}

/// Index of the registry entry for `id`, scanning from the front.
pub(crate) fn find_player(players: &Vec<PlayerAvatar>, id: PlayerId) -> (r: Option<usize>)
    ensures
        match r {
            Some(i) => i < players@.len() && players@[i as int].id == id,
            None => !has_player(players@, id),
        },
{
    let mut i: usize = 0;
    while i < players.len()
        invariant
            i <= players@.len(),
            forall|j: int| 0 <= j < i ==> players@[j].id != id,
        decreases players@.len() - i,
    {
        if players[i].id == id {
            return Some(i);
        }
        i = i + 1;
    }
    None
}

pub(crate) fn find_joint(joints: &Vec<GrabJoint>, id: PlayerId) -> (r: Option<usize>)
    ensures
        match r {
            Some(i) => i < joints@.len() && joints@[i as int].player_id == id,
            None => !has_joint(joints@, id),
        },
{
    let mut i: usize = 0;
    while i < joints.len()
        invariant
            i <= joints@.len(),
            forall|j: int| 0 <= j < i ==> joints@[j].player_id != id,
        decreases joints@.len() - i,
    {
        if joints[i].player_id == id {
            return Some(i);
        }
        i = i + 1;
    }
    None
}

pub(crate) fn find_input(inputs: &Vec<QueuedInput>, id: PlayerId) -> (r: Option<usize>)
    ensures
        match r {
            Some(i) => i < inputs@.len() && inputs@[i as int].player_id == id,
            None => !has_pending(inputs@, id),
        },
{
    let mut i: usize = 0;
    while i < inputs.len()
        invariant
            i <= inputs@.len(),
            forall|j: int| 0 <= j < i ==> inputs@[j].player_id != id,
        decreases inputs@.len() - i,
    {
        if inputs[i].player_id == id {
            return Some(i);
        }
        i = i + 1;
    }
    None
}

pub(crate) fn find_entity(entities: &Vec<Entity>, id: u32) -> (r: Option<usize>)
    ensures
        match r {
            Some(i) => i < entities@.len() && entities@[i as int].id == id,
            None => !has_entity(entities@, id),
        },
{
    let mut i: usize = 0;
    while i < entities.len()
        invariant
            i <= entities@.len(),
            forall|j: int| 0 <= j < i ==> entities@[j].id != id,
        decreases entities@.len() - i,
    {
        if entities[i].id == id {
            return Some(i);
        }
        i = i + 1;
    }
    None
}

impl Game {
    /// Registers a new kinematic avatar for `player_id` at the origin.
    /// A duplicate registration is rejected: the world is unchanged.
    pub fn add_player(&mut self, player_id: PlayerId)
        requires
            old(self).wf(),
        ensures
            final(self).wf(),
            has_player(old(self).players@, player_id) ==> *final(self) == *old(self),
            !has_player(old(self).players@, player_id) ==> ({
                &&& final(self).players@ == old(self).players@.push(
                    PlayerAvatar { id: player_id, x: 0, y: 0 },
                )
                &&& final(self).grab_joints@ == old(self).grab_joints@
                &&& final(self).player_inputs@ == old(self).player_inputs@
                &&& final(self).entities@ == old(self).entities@
                &&& Game::same_config(*old(self), *final(self))
            }),
    {
        if find_player(&self.players, player_id).is_none() {
            self.players.push(PlayerAvatar { id: player_id, x: 0, y: 0 });
            proof {
                assert forall|i: int|
                    0 <= i < self.grab_joints@.len() implies joint_targets_ok(
                    *self,
                    #[trigger] self.grab_joints@[i],
                ) by {
                    assert(joint_targets_ok(*old(self), self.grab_joints@[i]));
                    let j = self.grab_joints@[i];
                    let k = choose|k: int|
                        0 <= k < old(self).players@.len() && old(self).players@[k].id
                            == j.player_id;
                    assert(self.players@[k].id == j.player_id);
                }
            }
        }
    }

    /// Toggles the pause state; everything else is untouched.
    pub fn pause(&mut self)
        ensures
            final(self).paused == !old(self).paused,
            final(self).gravity_x == old(self).gravity_x,
            final(self).gravity_y == old(self).gravity_y,
            final(self).substeps == old(self).substeps,
            final(self).boundaries@ == old(self).boundaries@,
            final(self).entities@ == old(self).entities@,
            final(self).players@ == old(self).players@,
            final(self).grab_joints@ == old(self).grab_joints@,
            final(self).player_inputs@ == old(self).player_inputs@,
            old(self).wf() ==> final(self).wf(),
    {
        self.paused = !self.paused;
        proof {
            if old(self).wf() {
                assert forall|i: int|
                    0 <= i < self.grab_joints@.len() implies joint_targets_ok(
                    *self,
                    #[trigger] self.grab_joints@[i],
                ) by {
                    assert(joint_targets_ok(*old(self), self.grab_joints@[i]));
                }
            }
        }
    }

    /// Unregisters `player_id`: drops its avatar, its grab joint if any,
    /// and its queued input. Removing an unregistered id is a no-op on the
    /// avatar registry but still clears any buffered input for that id.
    pub fn remove_player(&mut self, player_id: PlayerId)
        requires
            old(self).wf(),
        ensures
            final(self).wf(),
            final(self).players@ == players_without(old(self).players@, player_id),
            final(self).grab_joints@ == joints_without(old(self).grab_joints@, player_id),
            final(self).player_inputs@ == inputs_without(old(self).player_inputs@, player_id),
            final(self).entities@ == old(self).entities@,
            Game::same_config(*old(self), *final(self)),
    {
        match find_player(&self.players, player_id) {
            Some(i) => {
                self.players.remove(i);
                proof {
                    crate::seqtools::lemma_remove_one_is_filter(
                        old(self).players@,
                        keep_other_players(player_id),
                        i as int,
                    );
                }
            },
            None => {
                proof {
                    crate::seqtools::lemma_filter_all_kept(
                        old(self).players@,
                        keep_other_players(player_id),
                    );
                }
            },
        }
        match find_joint(&self.grab_joints, player_id) {
            Some(i) => {
                self.grab_joints.remove(i);
                proof {
                    crate::seqtools::lemma_remove_one_is_filter(
                        old(self).grab_joints@,
                        keep_other_joints(player_id),
                        i as int,
                    );
                }
            },
            None => {
                proof {
                    crate::seqtools::lemma_filter_all_kept(
                        old(self).grab_joints@,
                        keep_other_joints(player_id),
                    );
                }
            },
        }
        match find_input(&self.player_inputs, player_id) {
            Some(i) => {
                self.player_inputs.remove(i);
                proof {
                    crate::seqtools::lemma_remove_one_is_filter(
                        old(self).player_inputs@,
                        keep_other_inputs(player_id),
                        i as int,
                    );
                }
            },
            None => {
                proof {
                    crate::seqtools::lemma_filter_all_kept(
                        old(self).player_inputs@,
                        keep_other_inputs(player_id),
                    );
                }
            },
        }
        proof {
            lemma_remove_player_wf(*old(self), *self, player_id);
        }
    }

    /// Overwrites the pending input slot for `player_id` ("latest wins").
    /// Inputs are buffered even for unregistered ids; an unregistered id's
    /// input is discarded at tick time. While paused, submission is a
    /// no-op.
    pub fn apply_input(&mut self, player_id: PlayerId, input: PlayerInput)
        requires
            old(self).wf(),
        ensures
            final(self).wf(),
            old(self).paused ==> *final(self) == *old(self),
            !old(self).paused ==> ({
                &&& final(self).player_inputs@ == (if has_pending(
                    old(self).player_inputs@,
                    player_id,
                ) {
                    old(self).player_inputs@.update(
                        input_slot(old(self).player_inputs@, player_id),
                        QueuedInput { player_id, input },
                    )
                } else {
                    old(self).player_inputs@.push(QueuedInput { player_id, input })
                })
                &&& pending_of(final(self).player_inputs@, player_id) == Some(input)
                &&& forall|id: PlayerId|
                    id != player_id ==> pending_of(final(self).player_inputs@, id) == pending_of(
                        old(self).player_inputs@,
                        id,
                    )
                &&& final(self).players@ == old(self).players@
                &&& final(self).grab_joints@ == old(self).grab_joints@
                &&& final(self).entities@ == old(self).entities@
                &&& Game::same_config(*old(self), *final(self))
            }),
    {
        if self.paused {
            return ;
        }
        let q = QueuedInput { player_id, input };
        match find_input(&self.player_inputs, player_id) {
            Some(i) => {
                proof {
                    let k = input_slot(self.player_inputs@, player_id);
                    assert(0 <= k < self.player_inputs@.len() && self.player_inputs@[k].player_id
                        == player_id);
                    assert(k == i as int);
                }
                self.player_inputs.set(i, q);
            },
            None => {
                self.player_inputs.push(q);
            },
        }
        proof {
            lemma_apply_input_post(*old(self), *self, player_id, input);
        }
    }

    /// The pending (latest) input queued for `player_id`, if any.
    pub fn pending_input(&self, player_id: PlayerId) -> (r: Option<PlayerInput>)
        requires
            self.wf(),
        ensures
            r == pending_of(self.player_inputs@, player_id),
    {
        match find_input(&self.player_inputs, player_id) {
            Some(i) => {
                let q = self.player_inputs[i];
                proof {
                    let w = choose|k: int|
                        0 <= k < self.player_inputs@.len() && self.player_inputs@[k].player_id
                            == player_id;
                    assert(w == i as int);
                }
                Some(q.input)
            },
            None => None,
        }
    }
}

/// Dropping one player's entries from every registry keeps the world
/// well-formed.
proof fn lemma_remove_player_wf(a: Game, b: Game, id: PlayerId)
    requires
        a.wf(),
        b.players@ == players_without(a.players@, id),
        b.grab_joints@ == joints_without(a.grab_joints@, id),
        b.player_inputs@ == inputs_without(a.player_inputs@, id),
        b.entities@ == a.entities@,
        b.boundaries@ == a.boundaries@,
        b.paused == a.paused,
    ensures
        b.wf(),
{
    crate::seqtools::lemma_filter_unique_keys(
        a.players@,
        keep_other_players(id),
        (|p: PlayerAvatar| p.id),
    );
    crate::seqtools::lemma_filter_unique_keys(
        a.grab_joints@,
        keep_other_joints(id),
        (|j: GrabJoint| j.player_id),
    );
    crate::seqtools::lemma_filter_unique_keys(
        a.player_inputs@,
        keep_other_inputs(id),
        (|q: QueuedInput| q.player_id),
    );
    assert forall|i: int|
        0 <= i < b.grab_joints@.len() implies joint_targets_ok(b, #[trigger] b.grab_joints@[i]) by {
        let jf = b.grab_joints@[i];
        let k = choose|k: int| 0 <= k < a.grab_joints@.len() && b.grab_joints@[i] == a.grab_joints@[k];
        assert(joint_targets_ok(a, a.grab_joints@[k]));
        a.grab_joints@.lemma_filter_pred(keep_other_joints(id), i);
        assert(jf.player_id != id);
        let w = choose|w: int| 0 <= w < a.players@.len() && a.players@[w].id == jf.player_id;
        a.players@.lemma_filter_contains(keep_other_players(id), w);
        assert(b.players@.contains(a.players@[w]));
        let m = choose|m: int| 0 <= m < b.players@.len() && b.players@[m] == a.players@[w];
        assert(b.players@[m].id == jf.player_id);
    }
}

/// The "latest wins" upsert of one input slot keeps the world well-formed
/// and changes only that player's pending input.
proof fn lemma_apply_input_post(a: Game, b: Game, id: PlayerId, input: PlayerInput)
    requires
        a.wf(),
        b.player_inputs@ == (if has_pending(a.player_inputs@, id) {
            a.player_inputs@.update(input_slot(a.player_inputs@, id), QueuedInput { player_id: id, input })
        } else {
            a.player_inputs@.push(QueuedInput { player_id: id, input })
        }),
        b.players@ == a.players@,
        b.grab_joints@ == a.grab_joints@,
        b.entities@ == a.entities@,
        b.boundaries@ == a.boundaries@,
    ensures
        b.wf(),
        pending_of(b.player_inputs@, id) == Some(input),
        forall|id2: PlayerId|
            id2 != id ==> pending_of(b.player_inputs@, id2) == pending_of(a.player_inputs@, id2),
{
    let sa = a.player_inputs@;
    let sb = b.player_inputs@;
    if has_pending(sa, id) {
        let k = input_slot(sa, id);
        assert(0 <= k < sa.len() && sa[k].player_id == id);
        assert(sb.len() == sa.len());
        assert(forall|m: int| 0 <= m < sa.len() ==> sb[m].player_id == sa[m].player_id);
        assert(unique_input_players(sb));
        assert(has_pending(sb, id));
        let w = choose|w: int| 0 <= w < sb.len() && sb[w].player_id == id;
        assert(w == k);
        assert(pending_of(sb, id) == Some(input));
    } else {
        assert(sb.len() == sa.len() + 1);
        assert(forall|m: int| 0 <= m < sa.len() ==> sb[m] == sa[m]);
        assert(sb[sa.len() as int].player_id == id);
        assert forall|i: int, j: int| 0 <= i < j < sb.len() implies sb[i].player_id
            != sb[j].player_id by {
            if j == sa.len() as int {
                assert(sb[i] == sa[i]);
                assert(!(exists|m: int| 0 <= m < sa.len() && sa[m].player_id == id));
            }
        }
        assert(has_pending(sb, id));
        let w = choose|w: int| 0 <= w < sb.len() && sb[w].player_id == id;
        assert(w == sa.len() as int);
        assert(pending_of(sb, id) == Some(input));
    }
    assert forall|id2: PlayerId|
        id2 != id implies pending_of(sb, id2) == pending_of(sa, id2) by {
        if has_pending(sa, id2) {
            let wa = choose|w: int| 0 <= w < sa.len() && sa[w].player_id == id2;
            assert(sb[wa].player_id == id2);
            assert(has_pending(sb, id2));
            let wb = choose|w: int| 0 <= w < sb.len() && sb[w].player_id == id2;
            assert(wb < sa.len());
            assert(sa[wb].player_id == id2);
            assert(wb == wa);
            assert(sb[wb] == sa[wa]);
        } else {
            if has_pending(sb, id2) {
                let wb = choose|w: int| 0 <= w < sb.len() && sb[w].player_id == id2;
                assert(wb < sa.len() ==> sa[wb].player_id == id2);
                assert(false);
            }
        }
    }
    lemma_joints_ok_frame(a, b);
}

} // verus!
