use game_logic::map::{DimensionsData, EntityData, MapData, ShapeKind};
use game_logic::tick::{
    EntityPose, GrabAction, GrabCandidate, HoverObservation, SweptPose, TickObservations,
};
use game_logic::world::{Game, GrabJoint, PlayerInput};

fn input(dx: i64, dy: i64, down: bool) -> PlayerInput {
    PlayerInput { mouse_dx: dx, mouse_dy: dy, is_mouse_down: down }
}

fn empty_obs() -> TickObservations {
    TickObservations { swept: vec![], entity_poses: vec![], hovers: vec![] }
}

fn swept(id: u32, x: i64, y: i64) -> SweptPose {
    SweptPose { player_id: id, x, y }
}

fn hover(id: u32, candidates: Vec<GrabCandidate>) -> HoverObservation {
    HoverObservation { player_id: id, candidates }
}

fn candidate(entity_id: u32, ax: i64, ay: i64) -> GrabCandidate {
    GrabCandidate { entity_id, anchor_x: ax, anchor_y: ay }
}

#[test]
fn movement_requests_cover_players_with_input() {
    let mut g = Game::new(None);
    g.add_player(1);
    g.add_player(2);
    g.apply_input(2, input(250, -40, false));
    let reqs = g.movement_requests();
    assert_eq!(reqs.len(), 1);
    assert_eq!(reqs[0].player_id, 2);
    assert_eq!((reqs[0].dx, reqs[0].dy), (250, -40));
}

#[test]
fn single_player_moves_right_grid_untouched() {
    // default map, one player, input (1, 0) with the button up, one tick:
    // the player's x increases, no joint appears, the grid keeps 40 squares
    let mut g = Game::new(None);
    g.add_player(1);
    g.apply_input(1, input(1000, 0, false));
    let reqs = g.movement_requests();
    assert_eq!(reqs.len(), 1);
    // the arena is empty around the origin, so the sweep goes unobstructed
    let obs = TickObservations {
        swept: vec![swept(1, reqs[0].dx, reqs[0].dy)],
        entity_poses: vec![],
        hovers: vec![],
    };
    let actions = g.tick(&obs);
    assert!(actions.is_empty());
    assert!(g.players[0].x > 0);
    assert_eq!(g.players[0].x, 1000);
    assert!(g.grab_joints.is_empty());
    assert_eq!(g.entities.len(), 40);
    // inputs never persist across ticks
    assert_eq!(g.pending_input(1), None);
}

#[test]
fn player_without_input_does_not_move() {
    let mut g = Game::new(None);
    g.add_player(1);
    // a stray sweep observation without a queued input must not move anyone
    let obs = TickObservations {
        swept: vec![swept(1, 5000, 5000)],
        entity_poses: vec![],
        hovers: vec![],
    };
    g.tick(&obs);
    assert_eq!((g.players[0].x, g.players[0].y), (0, 0));
}

#[test]
fn grab_creates_exactly_one_joint() {
    let mut g = Game::new(None);
    g.add_player(1);
    g.apply_input(1, input(0, 0, true));
    let obs = TickObservations {
        swept: vec![swept(1, 0, 0)],
        entity_poses: vec![],
        hovers: vec![hover(1, vec![candidate(12, 100, -200)])],
    };
    let actions = g.tick(&obs);
    assert_eq!(g.grab_joints.len(), 1);
    assert_eq!(
        g.grab_joints[0],
        GrabJoint { player_id: 1, entity_id: 12, anchor_x: 100, anchor_y: -200 },
    );
    assert_eq!(
        actions,
        vec![GrabAction::Create { player_id: 1, entity_id: 12, anchor_x: 100, anchor_y: -200 }],
    );
}

#[test]
fn grab_tie_break_picks_lowest_entity_id() {
    let mut g = Game::new(None);
    g.add_player(1);
    g.apply_input(1, input(0, 0, true));
    let obs = TickObservations {
        swept: vec![],
        entity_poses: vec![],
        hovers: vec![hover(1, vec![candidate(17, 1, 1), candidate(3, 2, 2), candidate(9, 3, 3)])],
    };
    g.tick(&obs);
    assert_eq!(g.grab_joints.len(), 1);
    assert_eq!(g.grab_joints[0].entity_id, 3);
}

#[test]
fn grab_ignores_unknown_and_static_targets() {
    let solid = EntityData {
        shape: ShapeKind::Rect,
        x1: Some(0),
        y1: Some(0),
        x2: Some(100),
        y2: Some(100),
        x: None,
        y: None,
        radius: None,
        is_static: Some(true),
        is_death: None,
        restitution: None,
    };
    let m = MapData {
        gravity: None,
        dimensions: Some(DimensionsData(10000, 8000)),
        entities: Some(vec![solid]),
    };
    let mut g = Game::new(Some(m));
    g.add_player(1);
    g.apply_input(1, input(0, 0, true));
    let obs = TickObservations {
        swept: vec![],
        entity_poses: vec![],
        // entity 0 is static, entity 999 does not exist
        hovers: vec![hover(1, vec![candidate(0, 0, 0), candidate(999, 0, 0)])],
    };
    let actions = g.tick(&obs);
    assert!(g.grab_joints.is_empty());
    assert!(actions.is_empty());
}

#[test]
fn grab_held_three_ticks_then_released() {
    // joint exists after each of the three held ticks, gone after release
    let mut g = Game::new(None);
    g.add_player(1);
    for _ in 0..3 {
        g.apply_input(1, input(0, 0, true));
        let obs = TickObservations {
            swept: vec![swept(1, 0, 0)],
            entity_poses: vec![],
            hovers: vec![hover(1, vec![candidate(12, 40, 40)])],
        };
        g.tick(&obs);
        assert_eq!(g.grab_joints.len(), 1);
        assert_eq!(g.grab_joints[0].player_id, 1);
        assert_eq!(g.grab_joints[0].entity_id, 12);
    }
    g.apply_input(1, input(0, 0, false));
    let actions = g.tick(&empty_obs());
    assert!(g.grab_joints.is_empty());
    assert_eq!(actions, vec![GrabAction::Release { player_id: 1 }]);
}

#[test]
fn held_joint_persists_without_hover() {
    let mut g = Game::new(None);
    g.add_player(1);
    g.apply_input(1, input(0, 0, true));
    let obs = TickObservations {
        swept: vec![],
        entity_poses: vec![],
        hovers: vec![hover(1, vec![candidate(5, 0, 0)])],
    };
    g.tick(&obs);
    assert_eq!(g.grab_joints.len(), 1);
    // still held, but the avatar has left the entity: the joint persists
    g.apply_input(1, input(0, 0, true));
    let actions = g.tick(&empty_obs());
    assert_eq!(g.grab_joints.len(), 1);
    assert!(actions.is_empty());
}

#[test]
fn removing_player_releases_its_joint() {
    let mut g = Game::new(None);
    g.add_player(1);
    g.apply_input(1, input(0, 0, true));
    let obs = TickObservations {
        swept: vec![],
        entity_poses: vec![],
        hovers: vec![hover(1, vec![candidate(12, 0, 0)])],
    };
    g.tick(&obs);
    assert_eq!(g.grab_joints.len(), 1);
    g.remove_player(1);
    assert!(g.grab_joints.is_empty());
    assert!(g.players.is_empty());
}

#[test]
fn entity_poses_commit_only_to_movable_entities() {
    let solid = EntityData {
        shape: ShapeKind::Rect,
        x1: Some(0),
        y1: Some(0),
        x2: Some(100),
        y2: Some(100),
        x: None,
        y: None,
        radius: None,
        is_static: Some(true),
        is_death: None,
        restitution: None,
    };
    let mut ball = EntityData { ..solid };
    ball.shape = ShapeKind::Circle;
    ball.x = Some(500);
    ball.y = Some(500);
    ball.is_static = Some(false);
    let m = MapData {
        gravity: None,
        dimensions: Some(DimensionsData(10000, 8000)),
        entities: Some(vec![solid, ball]),
    };
    let mut g = Game::new(Some(m));
    let solid_before = g.entities[0];
    let obs = TickObservations {
        swept: vec![],
        entity_poses: vec![
            EntityPose { entity_id: 0, x: 77, y: 77, rotation: 7, vx: 1, vy: 1, angular_velocity: 1 },
            EntityPose { entity_id: 1, x: -500, y: 250, rotation: 314, vx: 10, vy: -20, angular_velocity: 5 },
        ],
        hovers: vec![],
    };
    g.tick(&obs);
    // the static block ignored its pose entry, the ball took it
    assert_eq!(g.entities[0], solid_before);
    let ball_now = g.entities[1];
    assert_eq!((ball_now.x, ball_now.y, ball_now.rotation), (-500, 250, 314));
    assert_eq!((ball_now.vx, ball_now.vy, ball_now.angular_velocity), (10, -20, 5));
    // spawn pose is untouched by integration
    assert_eq!((ball_now.spawn_x, ball_now.spawn_y), (0, 0));
}

#[test]
fn restart_resets_dynamic_entities_only() {
    let mut g = Game::new(None);
    g.add_player(1);
    g.apply_input(1, input(0, 0, true));
    let obs = TickObservations {
        swept: vec![swept(1, 123, 456)],
        entity_poses: vec![
            EntityPose { entity_id: 0, x: 9, y: 9, rotation: 9, vx: 9, vy: 9, angular_velocity: 9 },
        ],
        hovers: vec![hover(1, vec![candidate(12, 0, 0)])],
    };
    g.tick(&obs);
    assert_eq!(g.entities[0].x, 9);
    let players_before = g.players.clone();
    let joints_before = g.grab_joints.clone();
    let boundaries_before = g.boundaries.clone();
    g.restart();
    for e in &g.entities {
        assert_eq!((e.x, e.y, e.rotation), (e.spawn_x, e.spawn_y, e.spawn_rotation));
        assert_eq!((e.vx, e.vy, e.angular_velocity), (0, 0, 0));
    }
    // players, joints and boundaries are untouched
    assert_eq!(g.players, players_before);
    assert_eq!(g.grab_joints, joints_before);
    assert_eq!(g.boundaries, boundaries_before);
}

#[test]
fn paused_tick_is_a_noop_and_keeps_inputs() {
    let mut g = Game::new(None);
    g.add_player(1);
    g.apply_input(1, input(500, 0, false));
    g.pause();
    let obs = TickObservations {
        swept: vec![swept(1, 500, 0)],
        entity_poses: vec![],
        hovers: vec![],
    };
    let actions = g.tick(&obs);
    assert!(actions.is_empty());
    assert_eq!((g.players[0].x, g.players[0].y), (0, 0));
    // the queued input waits for the world to resume
    assert_eq!(g.pending_input(1), Some(input(500, 0, false)));
    assert!(g.movement_requests().is_empty());
    g.pause();
    let reqs = g.movement_requests();
    assert_eq!(reqs.len(), 1);
}

#[test]
fn paused_restart_is_a_noop() {
    let mut g = Game::new(None);
    let obs = TickObservations {
        swept: vec![],
        entity_poses: vec![
            EntityPose { entity_id: 0, x: 9, y: 9, rotation: 9, vx: 9, vy: 9, angular_velocity: 9 },
        ],
        hovers: vec![],
    };
    g.tick(&obs);
    g.pause();
    g.restart();
    assert_eq!(g.entities[0].x, 9);
    g.pause();
    g.restart();
    assert_eq!(g.entities[0].x, g.entities[0].spawn_x);
}

#[test]
fn two_players_act_independently_in_registry_order() {
    let mut g = Game::new(None);
    g.add_player(1);
    g.add_player(2);
    // player 1 takes a joint on entity 4
    g.apply_input(1, input(0, 0, true));
    let obs = TickObservations {
        swept: vec![],
        entity_poses: vec![],
        hovers: vec![hover(1, vec![candidate(4, 0, 0)])],
    };
    g.tick(&obs);
    assert_eq!(g.grab_joints.len(), 1);
    // now player 1 releases while player 2 grabs entity 7
    g.apply_input(1, input(0, 0, false));
    g.apply_input(2, input(0, 0, true));
    let obs = TickObservations {
        swept: vec![],
        entity_poses: vec![],
        hovers: vec![hover(2, vec![candidate(7, 11, -11)])],
    };
    let actions = g.tick(&obs);
    assert_eq!(
        actions,
        vec![
            GrabAction::Release { player_id: 1 },
            GrabAction::Create { player_id: 2, entity_id: 7, anchor_x: 11, anchor_y: -11 },
        ],
    );
    assert_eq!(g.grab_joints.len(), 1);
    assert_eq!(g.grab_joints[0].player_id, 2);
    assert_eq!(g.grab_joint_of(1), None);
}

#[test]
fn movement_requests_follow_registry_order() {
    let mut g = Game::new(None);
    g.add_player(5);
    g.add_player(3);
    g.add_player(9);
    g.apply_input(9, input(1, 1, false));
    g.apply_input(5, input(2, 2, false));
    let reqs = g.movement_requests();
    let ids: Vec<u32> = reqs.iter().map(|r| r.player_id).collect();
    assert_eq!(ids, vec![5, 9]);
}

#[test]
fn hover_state_exported_from_current_queries() {
    let mut g = Game::new(None);
    g.add_player(1);
    let s1 = g.get_game_state(&vec![hover(1, vec![candidate(12, 0, 0)])]);
    assert!(s1.players[0].is_over_grabbable);
    let s2 = g.get_game_state(&vec![hover(1, vec![])]);
    assert!(!s2.players[0].is_over_grabbable);
    let s3 = g.get_game_state(&vec![hover(1, vec![candidate(999, 0, 0)])]);
    assert!(!s3.players[0].is_over_grabbable);
}

#[test]
fn snapshot_reports_grab_state() {
    let mut g = Game::new(None);
    g.add_player(1);
    g.apply_input(1, input(0, 0, true));
    let obs = TickObservations {
        swept: vec![],
        entity_poses: vec![],
        hovers: vec![hover(1, vec![candidate(12, 0, 0)])],
    };
    g.tick(&obs);
    let s = g.get_game_state(&vec![]);
    assert!(s.players[0].is_grabbing);
    assert_eq!(g.grab_joint_of(1), Some(GrabJoint { player_id: 1, entity_id: 12, anchor_x: 0, anchor_y: 0 }));
    assert_eq!(g.grab_joint_of(2), None);
}
