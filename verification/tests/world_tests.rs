use game_logic::builder::{
    DEFAULT_GRAVITY_X, DEFAULT_GRAVITY_Y, DEFAULT_SUBSTEPS,
};
use game_logic::map::{DimensionsData, EntityData, MapData, ShapeKind};
use game_logic::map::check_map_data;
use game_logic::snapshot::{ShapeType, DEATH_USER_DATA, GRABBABLE_USER_DATA};
use game_logic::world::{Game, PlayerInput};

fn no_map() -> Option<MapData> {
    None
}

fn blank_entity(shape: ShapeKind) -> EntityData {
    EntityData {
        shape,
        x1: None,
        y1: None,
        x2: None,
        y2: None,
        x: None,
        y: None,
        radius: None,
        is_static: None,
        is_death: None,
        restitution: None,
    }
}

fn input(dx: i64, dy: i64, down: bool) -> PlayerInput {
    PlayerInput { mouse_dx: dx, mouse_dy: dy, is_mouse_down: down }
}

#[test]
fn default_world_has_four_walls_and_grid() {
    let g = Game::new(no_map());
    assert_eq!(g.boundaries.len(), 4);
    assert_eq!(g.entities.len(), 40);
    assert!(!g.paused);
    assert_eq!(g.substeps, DEFAULT_SUBSTEPS);
    assert_eq!(g.gravity_x, DEFAULT_GRAVITY_X);
    assert_eq!(g.gravity_y, DEFAULT_GRAVITY_Y);
    assert!(g.players.is_empty());
    assert!(g.grab_joints.is_empty());
}

#[test]
fn default_walls_exact_geometry() {
    let g = Game::new(no_map());
    // floor, ceiling, left, right — 16 x 9 world, wall half-thickness 0.1
    let floor = &g.boundaries[0];
    assert_eq!((floor.x, floor.y, floor.half_width, floor.half_height), (0, -4500, 8000, 100));
    let ceiling = &g.boundaries[1];
    assert_eq!((ceiling.x, ceiling.y, ceiling.half_width, ceiling.half_height), (0, 4500, 8000, 100));
    let left = &g.boundaries[2];
    assert_eq!((left.x, left.y, left.half_width, left.half_height), (-8000, 0, 100, 4500));
    let right = &g.boundaries[3];
    assert_eq!((right.x, right.y, right.half_width, right.half_height), (8000, 0, 100, 4500));
}

#[test]
fn default_grid_layout_and_clearance() {
    let g = Game::new(no_map());
    for (k, e) in g.entities.iter().enumerate() {
        assert_eq!(e.id, k as u32);
        let col = (k / 5) as i64;
        let row = (k % 5) as i64;
        assert_eq!(e.x, col * 1000 - 3500);
        assert_eq!(e.y, row * 1000 - 2000);
        assert!(!e.is_static);
        assert_eq!(e.restitution, 0);
        // no grid square touches a wall at t = 0
        for b in &g.boundaries {
            let clear_x = e.x + 500 <= b.x - b.half_width || b.x + b.half_width <= e.x - 500;
            let clear_y = e.y + 500 <= b.y - b.half_height || b.y + b.half_height <= e.y - 500;
            assert!(clear_x || clear_y);
        }
    }
}

#[test]
fn map_world_scales_rect_exactly() {
    let mut rect = blank_entity(ShapeKind::Rect);
    rect.x1 = Some(100);
    rect.y1 = Some(200);
    rect.x2 = Some(500);
    rect.y2 = Some(600);
    rect.restitution = Some(250);
    let m = MapData {
        gravity: Some((0, -5000)),
        dimensions: Some(DimensionsData(10000, 8000)),
        entities: Some(vec![rect]),
    };
    let g = Game::new(Some(m));
    assert_eq!(g.gravity_y, -5000);
    assert_eq!(g.boundaries.len(), 4);
    assert_eq!((g.boundaries[0].x, g.boundaries[0].y), (0, -4000));
    assert_eq!(g.boundaries[0].half_width, 5000);
    assert_eq!(g.entities.len(), 1);
    let e = &g.entities[0];
    assert_eq!(e.id, 0);
    assert_eq!((e.x, e.y), (-2000, -800));
    assert_eq!((e.spawn_x, e.spawn_y), (-2000, -800));
    match e.shape {
        game_logic::world::ShapeDesc::Square { half_width, half_height } => {
            assert_eq!((half_width, half_height), (2000, 1600));
        },
        _ => panic!("expected a square"),
    }
    assert_eq!(e.restitution, 250);
}

#[test]
fn map_world_scales_circle_with_default_radius() {
    let mut circle = blank_entity(ShapeKind::Circle);
    circle.x = Some(500);
    circle.y = Some(500);
    let m = MapData {
        gravity: None,
        dimensions: Some(DimensionsData(10000, 8000)),
        entities: Some(vec![circle]),
    };
    let g = Game::new(Some(m));
    assert_eq!(g.gravity_y, DEFAULT_GRAVITY_Y);
    assert_eq!(g.entities.len(), 1);
    let e = &g.entities[0];
    assert_eq!((e.x, e.y), (0, 0));
    match e.shape {
        game_logic::world::ShapeDesc::Circle { radius } => assert_eq!(radius, 1000),
        _ => panic!("expected a circle"),
    }
}

#[test]
fn unsupported_shapes_are_skipped() {
    let odd = blank_entity(ShapeKind::Unsupported);
    let mut circle = blank_entity(ShapeKind::Circle);
    circle.x = Some(500);
    circle.y = Some(500);
    let m = MapData {
        gravity: None,
        dimensions: None,
        entities: Some(vec![odd, circle]),
    };
    let g = Game::new(Some(m));
    assert_eq!(g.entities.len(), 1);
    // ids are assigned to the kept entities only
    assert_eq!(g.entities[0].id, 0);
}

#[test]
fn map_without_entities_builds_empty_world() {
    let m = MapData { gravity: None, dimensions: None, entities: None };
    let g = Game::new(Some(m));
    assert_eq!(g.entities.len(), 0);
    assert_eq!(g.boundaries.len(), 4);
}

#[test]
fn check_map_data_rejects_bad_descriptions() {
    let good = MapData {
        gravity: None,
        dimensions: Some(DimensionsData(10000, 8000)),
        entities: Some(vec![blank_entity(ShapeKind::Rect)]),
    };
    assert!(check_map_data(&good));
    let bad_dims = MapData {
        gravity: None,
        dimensions: Some(DimensionsData(0, 8000)),
        entities: None,
    };
    assert!(!check_map_data(&bad_dims));
    let mut out_of_range = blank_entity(ShapeKind::Rect);
    out_of_range.x1 = Some(1001);
    let bad_coord = MapData {
        gravity: None,
        dimensions: None,
        entities: Some(vec![out_of_range]),
    };
    assert!(!check_map_data(&bad_coord));
}

#[test]
fn duplicate_add_player_is_rejected() {
    let mut g = Game::new(no_map());
    g.add_player(7);
    let p = g.players[0];
    g.apply_input(7, input(5, 5, false));
    g.add_player(7);
    assert_eq!(g.players.len(), 1);
    assert_eq!(g.players[0], p);
    // the queued input survived the rejected re-registration
    assert_eq!(g.pending_input(7), Some(input(5, 5, false)));
}

#[test]
fn add_then_remove_restores_registries() {
    let mut g = Game::new(no_map());
    g.add_player(1);
    let players_before = g.players.clone();
    let joints_before = g.grab_joints.clone();
    g.add_player(2);
    g.remove_player(2);
    assert_eq!(g.players, players_before);
    assert_eq!(g.grab_joints, joints_before);
}

#[test]
fn remove_unregistered_player_is_noop_on_registry() {
    let mut g = Game::new(no_map());
    g.add_player(1);
    g.remove_player(99);
    assert_eq!(g.players.len(), 1);
    assert_eq!(g.players[0].id, 1);
}

#[test]
fn latest_input_wins() {
    let mut g = Game::new(no_map());
    g.add_player(1);
    g.apply_input(1, input(100, 0, false));
    g.apply_input(1, input(-300, 50, true));
    assert_eq!(g.pending_input(1), Some(input(-300, 50, true)));
    // inputs for unregistered ids are buffered too
    g.apply_input(42, input(1, 2, false));
    assert_eq!(g.pending_input(42), Some(input(1, 2, false)));
}

#[test]
fn removed_player_leaves_no_input_behind() {
    let mut g = Game::new(no_map());
    g.add_player(3);
    g.apply_input(3, input(1000, 0, true));
    g.remove_player(3);
    assert_eq!(g.pending_input(3), None);
}

#[test]
fn paused_world_ignores_input_submission() {
    let mut g = Game::new(no_map());
    g.add_player(1);
    g.pause();
    assert!(g.paused);
    g.apply_input(1, input(1000, 0, false));
    assert_eq!(g.pending_input(1), None);
    g.pause();
    assert!(!g.paused);
    g.apply_input(1, input(1000, 0, false));
    assert_eq!(g.pending_input(1), Some(input(1000, 0, false)));
}

#[test]
fn snapshot_exports_objects_players_boundaries() {
    let mut g = Game::new(no_map());
    g.add_player(1);
    let s = g.get_game_state(&vec![]);
    assert_eq!(s.objects.len(), 40);
    assert_eq!(s.boundaries.len(), 4);
    assert_eq!(s.players.len(), 1);
    let o = &s.objects[0];
    assert_eq!(o.id, 0);
    assert_eq!((o.x, o.y), (-3500, -2000));
    assert_eq!(o.shape, ShapeType::Square);
    assert_eq!(o.user_data, GRABBABLE_USER_DATA);
    assert_eq!(o.half_width, Some(500));
    assert_eq!(o.half_height, Some(500));
    assert_eq!(o.radius, None);
    let p = &s.players[0];
    assert_eq!(p.id, 1);
    assert!(!p.is_grabbing);
    assert!(!p.is_over_grabbable);
}

#[test]
fn snapshot_tags_death_entities() {
    let rect = EntityData {
        shape: ShapeKind::Rect,
        x1: Some(0),
        y1: Some(0),
        x2: Some(100),
        y2: Some(100),
        x: None,
        y: None,
        radius: None,
        is_static: Some(true),
        is_death: Some(true),
        restitution: None,
    };
    let m = MapData { gravity: None, dimensions: None, entities: Some(vec![rect]) };
    let g = Game::new(Some(m));
    let s = g.get_game_state(&vec![]);
    assert_eq!(s.objects.len(), 1);
    assert_eq!(s.objects[0].user_data, DEATH_USER_DATA);
}

#[test]
fn snapshot_is_referentially_transparent() {
    let mut g = Game::new(no_map());
    g.add_player(1);
    g.add_player(2);
    let a = g.get_game_state(&vec![]);
    let b = g.get_game_state(&vec![]);
    assert_eq!(a, b);
}
