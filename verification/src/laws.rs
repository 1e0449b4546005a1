//! The library's laws: properties that hold across operations, stated
//! over the same spec functions the operations' contracts use, and proved
//! here once and for all.

use vstd::prelude::*;
use crate::world::{
    Entity, Game, GrabJoint, PlayerAvatar, PlayerId, QueuedInput, has_joint, has_pending,
    has_player, joint_for, joint_targets_ok, joints_without, keep_other_inputs,
    keep_other_joints, keep_other_players, inputs_without, pending_of, players_without,
    unique_joint_players, unique_player_ids,
};
use crate::tick::{
    EntityPose, HoverObservation, GrabCandidate, grab_fold, grab_step, hover_pick,
    posed_entities, respawned_entity,
};
use crate::builder::{
    DEFAULT_WORLD_HEIGHT, DEFAULT_WORLD_WIDTH, GRID_HALF_EXTENT, default_entities, default_entity,
    wall_boundaries,
};
use crate::snapshot::{objects_of, players_of};
use crate::seqtools::{
    lemma_filter_all_kept, lemma_filter_push_dropped, lemma_filter_unique_keys,
};

verus! {

/// The joint a player holds, if any: the abstract view of the joint
/// registry for one player.
pub open spec fn joint_state(s: Seq<GrabJoint>, id: PlayerId) -> Option<GrabJoint> {
    if has_joint(s, id) {
        Some(joint_for(s, id))
    } else {
        None
    }
}

/// Two axis-aligned boxes, given by centre and half-extents, that do not
/// overlap (touching edges count as clear of each other).
pub open spec fn boxes_disjoint(
    cx1: int,
    cy1: int,
    hw1: int,
    hh1: int,
    cx2: int,
    cy2: int,
    hw2: int,
    hh2: int,
) -> bool {
    ||| cx1 + hw1 <= cx2 - hw2
    ||| cx2 + hw2 <= cx1 - hw1
    ||| cy1 + hh1 <= cy2 - hh2
    ||| cy2 + hh2 <= cy1 - hh1
}

/// Law: a world is enclosed by exactly four boundary walls, whatever the
/// map description declares. `Game::new` guarantees
/// `g.boundaries@ == wall_boundaries(w, h)` for the declared or default
/// dimensions, and that sequence always has four entries.
pub proof fn lemma_four_walls(w: i64, h: i64)
    ensures
        wall_boundaries(w, h).len() == 4,
{
}

/// Law: at build time no square of the default grid intersects any of the
/// four default walls: the grid spans at most 4.0 units from the origin
/// on the x axis and 2.5 on the y axis, while the inner wall faces sit at
/// 7.9 and 4.4 units out.
pub proof fn lemma_default_grid_clear_of_walls()
    ensures
        forall|k: int, b: int|
            0 <= k < default_entities().len() && 0 <= b < 4 ==> ({
                let e = #[trigger] default_entities()[k];
                let wall = #[trigger] wall_boundaries(DEFAULT_WORLD_WIDTH, DEFAULT_WORLD_HEIGHT)[b];
                boxes_disjoint(
                    e.x as int,
                    e.y as int,
                    GRID_HALF_EXTENT as int,
                    GRID_HALF_EXTENT as int,
                    wall.x as int,
                    wall.y as int,
                    wall.half_width as int,
                    wall.half_height as int,
                )
            }),
{
    assert forall|k: int, b: int|
        0 <= k < default_entities().len() && 0 <= b < 4 implies ({
        let e = #[trigger] default_entities()[k];
        let wall = #[trigger] wall_boundaries(DEFAULT_WORLD_WIDTH, DEFAULT_WORLD_HEIGHT)[b];
        boxes_disjoint(
            e.x as int,
            e.y as int,
            GRID_HALF_EXTENT as int,
            GRID_HALF_EXTENT as int,
            wall.x as int,
            wall.y as int,
            wall.half_width as int,
            wall.half_height as int,
        )
    }) by {
        let e = default_entities()[k];
        assert(e == default_entity(k));
        assert(0 <= k / 5 <= 7);
        assert(0 <= k % 5 <= 4);
        assert(-3500 <= e.x as int <= 3500);
        assert(-2000 <= e.y as int <= 2000);
    }
}

/// Law: adding a player and removing it right away leaves the player and
/// joint registries exactly as they were. The preconditions restate what
/// `add_player` and `remove_player` ensure for an unregistered id.
pub proof fn lemma_add_remove_round_trip(pre: Game, mid: Game, post: Game, id: PlayerId)
    requires
        pre.wf(),
        !has_player(pre.players@, id),
        mid.players@ == pre.players@.push(PlayerAvatar { id, x: 0, y: 0 }),
        mid.grab_joints@ == pre.grab_joints@,
        post.players@ == players_without(mid.players@, id),
        post.grab_joints@ == joints_without(mid.grab_joints@, id),
    ensures
        post.players@ == pre.players@,
        post.grab_joints@ == pre.grab_joints@,
{
    assert forall|i: int|
        0 <= i < pre.players@.len() implies keep_other_players(id)(#[trigger] pre.players@[i]) by {
        assert(pre.players@[i].id != id);
    }
    lemma_filter_push_dropped(pre.players@, keep_other_players(id), PlayerAvatar { id, x: 0, y: 0 });
    lemma_filter_all_kept(pre.players@, keep_other_players(id));
    assert forall|i: int|
        0 <= i < pre.grab_joints@.len() implies keep_other_joints(id)(
        #[trigger] pre.grab_joints@[i],
    ) by {
        assert(joint_targets_ok(pre, pre.grab_joints@[i]));
        if pre.grab_joints@[i].player_id == id {
            assert(has_player(pre.players@, id));
        }
    }
    lemma_filter_all_kept(pre.grab_joints@, keep_other_joints(id));
}

/// Law: removing a player clears its queued input slot, so input queued
/// for a departed player can never act on a later tick. Player ids are
/// allocated monotonically by the connection boundary and never reused,
/// so no later player can inherit the slot either.
pub proof fn lemma_remove_clears_input(pre: Game, post: Game, id: PlayerId)
    requires
        post.player_inputs@ == inputs_without(pre.player_inputs@, id),
    ensures
        pending_of(post.player_inputs@, id) is None,
{
    let sb = post.player_inputs@;
    if has_pending(sb, id) {
        let w = choose|w: int| 0 <= w < sb.len() && sb[w].player_id == id;
        pre.player_inputs@.lemma_filter_pred(keep_other_inputs(id), w);
        assert(keep_other_inputs(id)(sb[w]));
    }
}

/// Law: respawning an entity resets a movable entity's pose to its spawn
/// pose with zero linear and angular velocity, is the identity on static
/// geometry, and never touches identity, shape, tag or restitution.
pub proof fn lemma_respawn_resets(e: Entity)
    ensures
        ({
            let r = respawned_entity(e);
            &&& !e.is_static ==> r.x == e.spawn_x && r.y == e.spawn_y && r.rotation
                == e.spawn_rotation && r.vx == 0 && r.vy == 0 && r.angular_velocity == 0
            &&& e.is_static ==> r == e
            &&& r.id == e.id && r.shape == e.shape && r.tag == e.tag && r.is_static == e.is_static
                && r.restitution == e.restitution
            &&& r.spawn_x == e.spawn_x && r.spawn_y == e.spawn_y && r.spawn_rotation
                == e.spawn_rotation
        }),
{
}

/// Law: snapshot extraction is referentially transparent. The export is a
/// pure function of the registries and the hover observations — this
/// lemma is that function's congruence — and `get_game_state` borrows the
/// world immutably, so two extractions with no mutation in between read
/// equal state and must return equal snapshots.
pub proof fn lemma_snapshot_deterministic(
    g1: Game,
    g2: Game,
    h1: Seq<HoverObservation>,
    h2: Seq<HoverObservation>,
)
    requires
        g1.players@ == g2.players@,
        g1.grab_joints@ == g2.grab_joints@,
        g1.entities@ == g2.entities@,
        g1.boundaries@ == g2.boundaries@,
        h1 == h2,
    ensures
        players_of(g1.players@, g1.grab_joints@, g1.entities@, h1) == players_of(
            g2.players@,
            g2.grab_joints@,
            g2.entities@,
            h2,
        ),
        objects_of(g1.entities@) == objects_of(g2.entities@),
{
}

/// Law: entity ids are stable across ticks for the lifetime of the
/// entity: committing integrated poses touches neither the number, the
/// order nor the ids of the entities, and the snapshot exports each
/// entity under its own id.
pub proof fn lemma_entity_ids_stable(entities: Seq<Entity>, poses: Seq<EntityPose>)
    ensures
        posed_entities(entities, poses).len() == entities.len(),
        forall|i: int|
            0 <= i < entities.len() ==> (#[trigger] posed_entities(entities, poses)[i]).id
                == entities[i].id,
        objects_of(entities).len() == entities.len(),
        forall|i: int|
            0 <= i < entities.len() ==> (#[trigger] objects_of(entities)[i]).id == entities[i].id,
{
}

/// The grab/release transition table as one readable function: what joint
/// a player holds after the grab pass, given what it held before, its
/// pending input, and the hover pick. Unregistered players and players
/// without a pending input keep whatever they held.
pub open spec fn expected_joint_after(
    joints0: Seq<GrabJoint>,
    inputs: Seq<QueuedInput>,
    entities: Seq<Entity>,
    hovers: Seq<HoverObservation>,
    players: Seq<PlayerAvatar>,
    id: PlayerId,
) -> Option<GrabJoint> {
    if has_player(players, id) {
        match pending_of(inputs, id) {
            Some(inp) => if inp.is_mouse_down {
                match joint_state(joints0, id) {
                    Some(j) => Some(j),
                    None => match hover_pick(entities, hovers, id) {
                        Some(c) => Some(
                            GrabJoint {
                                player_id: id,
                                entity_id: c.entity_id,
                                anchor_x: c.anchor_x,
                                anchor_y: c.anchor_y,
                            },
                        ),
                        None => None,
                    },
                }
            } else {
                None
            },
            None => joint_state(joints0, id),
        }
    } else {
        joint_state(joints0, id)
    }
}

/// A player's turn in the grab pass never touches another player's joint,
/// and keeps the registry uniquely keyed.
proof fn lemma_grab_step_frame(
    joints: Seq<GrabJoint>,
    inputs: Seq<QueuedInput>,
    entities: Seq<Entity>,
    hovers: Seq<HoverObservation>,
    q: PlayerId,
    id: PlayerId,
)
    requires
        unique_joint_players(joints),
        id != q,
    ensures
        unique_joint_players(grab_step(joints, inputs, entities, hovers, q)),
        joint_state(grab_step(joints, inputs, entities, hovers, q), id) == joint_state(joints, id),
{
    let out = grab_step(joints, inputs, entities, hovers, q);
    match pending_of(inputs, q) {
        Some(inp) => {
            if inp.is_mouse_down {
                if !has_joint(joints, q) {
                    match hover_pick(entities, hovers, q) {
                        Some(c) => {
                            lemma_push_joint_frame(
                                joints,
                                GrabJoint {
                                    player_id: q,
                                    entity_id: c.entity_id,
                                    anchor_x: c.anchor_x,
                                    anchor_y: c.anchor_y,
                                },
                                id,
                            );
                        },
                        None => {},
                    }
                }
            } else {
                lemma_release_frame(joints, q, id);
            }
        },
        None => {},
    }
}

/// Appending a joint held by another player changes nothing for `id`.
proof fn lemma_push_joint_frame(joints: Seq<GrabJoint>, j: GrabJoint, id: PlayerId)
    requires
        unique_joint_players(joints),
        !has_joint(joints, j.player_id),
        j.player_id != id,
    ensures
        unique_joint_players(joints.push(j)),
        joint_state(joints.push(j), id) == joint_state(joints, id),
{
    let out = joints.push(j);
    assert forall|a: int, b: int|
        0 <= a < b < out.len() implies out[a].player_id != out[b].player_id by {
        if b == out.len() - 1 {
            assert(out[a] == joints[a]);
        }
    }
    if has_joint(out, id) {
        let w = choose|w: int| 0 <= w < out.len() && out[w].player_id == id;
        assert(w < joints.len());
        assert(has_joint(joints, id));
        let w0 = choose|w0: int| 0 <= w0 < joints.len() && joints[w0].player_id == id;
        assert(w0 == w);
        assert(joint_for(out, id) == joint_for(joints, id));
    } else {
        if has_joint(joints, id) {
            let w = choose|w: int| 0 <= w < joints.len() && joints[w].player_id == id;
            assert(out[w].player_id == id);
        }
    }
}

/// Dropping another player's joint changes nothing for `id`.
proof fn lemma_release_frame(joints: Seq<GrabJoint>, q: PlayerId, id: PlayerId)
    requires
        unique_joint_players(joints),
        id != q,
    ensures
        unique_joint_players(joints_without(joints, q)),
        joint_state(joints_without(joints, q), id) == joint_state(joints, id),
{
    let out = joints_without(joints, q);
    lemma_filter_unique_keys(joints, keep_other_joints(q), (|j: GrabJoint| j.player_id));
    if has_joint(joints, id) {
        let w = choose|w: int| 0 <= w < joints.len() && joints[w].player_id == id;
        joints.lemma_filter_contains(keep_other_joints(q), w);
        assert(out.contains(joints[w]));
        let m = choose|m: int| 0 <= m < out.len() && out[m] == joints[w];
        assert(has_joint(out, id));
        let m0 = choose|m0: int| 0 <= m0 < out.len() && out[m0].player_id == id;
        assert(m0 == m);
        assert(joint_for(out, id) == joints[w]);
        assert(joint_for(joints, id) == joints[w]);
    } else {
        if has_joint(out, id) {
            let m = choose|m: int| 0 <= m < out.len() && out[m].player_id == id;
            let k = choose|k: int| 0 <= k < joints.len() && out[m] == joints[k];
            assert(has_joint(joints, id));
        }
    }
}

/// Law: the grab/release transition table. After the grab pass of one
/// tick — `grab_fold`, which `Game::tick` commits verbatim — each player
/// holds exactly the joint `expected_joint_after` describes: grab-button
/// held with a joint keeps that joint whatever the hover; held with none
/// while hovering a valid target creates the joint anchored at the pick;
/// held with none and no pick stays empty; released destroys the joint in
/// the same tick; no pending input changes nothing. The registry stays
/// uniquely keyed, so "holds a joint" always means exactly one.
pub proof fn lemma_grab_transition(
    joints0: Seq<GrabJoint>,
    inputs: Seq<QueuedInput>,
    entities: Seq<Entity>,
    hovers: Seq<HoverObservation>,
    players: Seq<PlayerAvatar>,
    id: PlayerId,
)
    requires
        unique_player_ids(players),
        unique_joint_players(joints0),
    ensures
        unique_joint_players(grab_fold(joints0, inputs, entities, hovers, players)),
        joint_state(grab_fold(joints0, inputs, entities, hovers, players), id)
            == expected_joint_after(joints0, inputs, entities, hovers, players, id),
    decreases players.len(),
{
    if players.len() == 0 {
    } else {
        let d = players.drop_last();
        let q = players.last().id;
        let fd = grab_fold(joints0, inputs, entities, hovers, d);
        let out = grab_fold(joints0, inputs, entities, hovers, players);
        assert forall|a: int, b: int|
            0 <= a < b < d.len() implies d[a].id != d[b].id by {
            assert(players[a].id != players[b].id);
        }
        lemma_grab_transition(joints0, inputs, entities, hovers, d, id);
        lemma_grab_transition(joints0, inputs, entities, hovers, d, q);
        if id == q {
            assert(has_player(players, id)) by {
                assert(players[players.len() - 1].id == id);
            }
            if has_player(d, id) {
                let w = choose|w: int| 0 <= w < d.len() && d[w].id == id;
                assert(players[w].id == id);
                assert(false);
            }
            assert(joint_state(fd, id) == joint_state(joints0, id));
            match pending_of(inputs, id) {
                Some(inp) => {
                    if inp.is_mouse_down {
                        if has_joint(fd, id) {
                            assert(out == fd);
                        } else {
                            match hover_pick(entities, hovers, id) {
                                Some(c) => {
                                    let nj = GrabJoint {
                                        player_id: id,
                                        entity_id: c.entity_id,
                                        anchor_x: c.anchor_x,
                                        anchor_y: c.anchor_y,
                                    };
                                    assert(out == fd.push(nj));
                                    assert forall|a: int, b: int|
                                        0 <= a < b < out.len() implies out[a].player_id
                                        != out[b].player_id by {
                                        if b == out.len() - 1 {
                                            assert(out[a] == fd[a]);
                                        }
                                    }
                                    assert(out[out.len() - 1].player_id == id);
                                    assert(has_joint(out, id));
                                    let w = choose|w: int|
                                        0 <= w < out.len() && out[w].player_id == id;
                                    if w < fd.len() {
                                        assert(fd[w].player_id == id);
                                    }
                                    assert(joint_for(out, id) == nj);
                                },
                                None => {
                                    assert(out == fd);
                                },
                            }
                        }
                    } else {
                        assert(out == joints_without(fd, id));
                        lemma_filter_unique_keys(
                            fd,
                            keep_other_joints(id),
                            (|j: GrabJoint| j.player_id),
                        );
                        if has_joint(out, id) {
                            let w = choose|w: int| 0 <= w < out.len() && out[w].player_id == id;
                            fd.lemma_filter_pred(keep_other_joints(id), w);
                            assert(keep_other_joints(id)(out[w]));
                        }
                    }
                },
                None => {
                    assert(out == fd);
                },
            }
        } else {
            lemma_grab_step_frame(fd, inputs, entities, hovers, q, id);
            assert(joint_state(out, id) == joint_state(fd, id));
            if has_player(d, id) {
                let w = choose|w: int| 0 <= w < d.len() && d[w].id == id;
                assert(players[w].id == id);
                assert(has_player(players, id));
            }
            if has_player(players, id) {
                let w = choose|w: int| 0 <= w < players.len() && players[w].id == id;
                assert(w < d.len());
                assert(d[w].id == id);
                assert(has_player(d, id));
            }
            assert(expected_joint_after(joints0, inputs, entities, hovers, players, id)
                == expected_joint_after(joints0, inputs, entities, hovers, d, id));
        }
    }
}

} // verus!
