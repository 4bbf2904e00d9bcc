use combat_core::grid::{GRID_CELL, SpatialGrid};
use combat_core::vec2::Vec2I;

#[test]
fn empty_query_returns_empty() {
    let g = SpatialGrid::new();
    let r = g.query(Vec2I { x: 0, y: 0 }, GRID_CELL);
    assert!(r.is_empty());
    assert!(g.get_nearby_enemies(Vec2I { x: 12_345, y: -9876 }).is_empty());
}

#[test]
fn query_returns_every_actor_within_radius() {
    let mut g = SpatialGrid::new();
    g.insert_enemy(1, Vec2I { x: 0, y: 0 });
    g.insert_enemy(2, Vec2I { x: 100_000, y: 0 });
    g.insert_enemy(3, Vec2I { x: 127_999, y: 1 });
    g.insert_enemy(4, Vec2I { x: 128_001, y: 0 });
    g.insert_enemy(5, Vec2I { x: -60_000, y: -60_000 });
    let r = g.query(Vec2I { x: 0, y: 0 }, GRID_CELL);
    assert!(r.contains(&1));
    assert!(r.contains(&2));
    assert!(r.contains(&3));
    assert!(!r.contains(&4));
    assert!(r.contains(&5));
    assert_eq!(g.len(), 5);
}

#[test]
fn query_filters_by_true_distance() {
    let mut g = SpatialGrid::new();
    // same cell, but outside a tight radius
    g.insert_enemy(7, Vec2I { x: 20_000, y: 0 });
    g.insert_enemy(8, Vec2I { x: 2_000, y: 0 });
    let r = g.query(Vec2I { x: 0, y: 0 }, 10_000);
    assert!(!r.contains(&7));
    assert!(r.contains(&8));
}

#[test]
fn completeness_across_cell_borders() {
    // a dense diagonal band crossing several cell borders
    let mut g = SpatialGrid::new();
    let mut handles: Vec<(u64, Vec2I)> = Vec::new();
    for i in 0..60i64 {
        let p = Vec2I { x: -300_000 + i * 10_000, y: -300_000 + i * 10_000 };
        g.insert_enemy(i as u64, p);
        handles.push((i as u64, p));
    }
    let center = Vec2I { x: 0, y: 0 };
    let radius = 120_000i64;
    let r = g.query(center, radius);
    for (h, p) in handles {
        let d2 = p.x * p.x + p.y * p.y;
        if d2 <= radius * radius {
            assert!(r.contains(&h), "missing handle within radius");
        }
    }
}

#[test]
fn nearby_is_a_superset_of_one_cell_length() {
    let mut g = SpatialGrid::new();
    g.insert_enemy(11, Vec2I { x: 90_000, y: -90_000 });
    g.insert_enemy(12, Vec2I { x: 500_000, y: 500_000 });
    let cands = g.get_nearby_enemies(Vec2I { x: 0, y: 0 });
    assert!(cands.iter().any(|e| e.handle == 11));
    assert!(!cands.iter().any(|e| e.handle == 12));
}

#[test]
fn spatial_grid_insert_query_500() {
    // the grid handles hundreds of actors spread over the field
    let mut g = SpatialGrid::new();
    for i in 0..500i64 {
        let x = (i % 16) * 50_000 - 400_000;
        let y = (i / 16) * 50_000 - 350_000;
        g.insert_enemy(i as u64, Vec2I { x, y });
    }
    let mut count = 0usize;
    for j in 0..10i64 {
        let qx = (j - 5) * 80_000;
        count += g.query(Vec2I { x: qx, y: 0 }, GRID_CELL).len();
    }
    assert!(count > 0);
    assert_eq!(g.len(), 500);
}
