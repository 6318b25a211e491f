use flowfield::field::{cell_coord_exec, FieldError, FlowField};
use flowfield::geom::{Vec2, UNIT};
use flowfield::system::{ConfigError, ParticleSystem};

fn uniform(n: usize, v: Vec2) -> Vec<Vec2> {
    vec![v; n]
}

#[test]
fn viewport_grid_dimensions() {
    let sys = ParticleSystem::new(1280 * UNIT, 720 * UNIT, 20 * UNIT, 4 * UNIT, &vec![Vec2::new(0, 0)])
        .unwrap();
    assert_eq!(sys.field.columns, 64);
    assert_eq!(sys.field.rows, 36);
    assert_eq!(sys.field.len(), 64 * 37);
    assert_eq!(sys.field.len(), 2368);
    let pts = sys.field.sample_points();
    assert_eq!(pts.len(), 2368);
    assert_eq!(pts[0], (0, 0));
    assert_eq!(pts[63], (63, 0));
    assert_eq!(pts[64], (0, 1));
    assert_eq!(pts[2367], (63, 36));
}

#[test]
fn rebuild_fills_every_cell() {
    let mut f = FlowField::new(64, 36);
    assert_eq!(f.cells.len(), 0);
    let dirs = uniform(2368, Vec2::new(0, UNIT));
    assert_eq!(f.rebuild(&dirs), Ok(()));
    assert_eq!(f.cells.len(), 2368);
    assert!(f.cells.iter().all(|v| v.x * v.x + v.y * v.y == UNIT * UNIT));
    let diag = uniform(2368, Vec2::new(724, -724));
    assert_eq!(f.rebuild(&diag), Ok(()));
    assert_eq!(f.direction(100), Vec2::new(724, -724));
}

#[test]
fn rebuild_refuses_wrong_count() {
    let mut f = FlowField::new(4, 2);
    assert_eq!(f.len(), 12);
    let r = f.rebuild(&uniform(8, Vec2::new(UNIT, 0)));
    assert_eq!(r, Err(FieldError::WrongCount { expected: 12, given: 8 }));
    assert_eq!(f.cells.len(), 0);
}

#[test]
fn rebuild_refuses_non_unit() {
    let mut f = FlowField::new(4, 2);
    let good = uniform(12, Vec2::new(UNIT, 0));
    assert_eq!(f.rebuild(&good), Ok(()));
    let mut bad = uniform(12, Vec2::new(-UNIT, 0));
    bad[5] = Vec2::new(UNIT, UNIT);
    bad[9] = Vec2::new(0, 0);
    assert_eq!(f.rebuild(&bad), Err(FieldError::NotUnit { index: 5 }));
    assert_eq!(f.cells, good);
}

#[test]
fn cell_coordinates_truncate_then_clamp() {
    assert_eq!(cell_coord_exec(-15, 10, 5), 0);
    assert_eq!(cell_coord_exec(0, 10, 5), 0);
    assert_eq!(cell_coord_exec(19, 10, 5), 1);
    assert_eq!(cell_coord_exec(49, 10, 5), 4);
    assert_eq!(cell_coord_exec(50, 10, 5), 4);
    assert_eq!(cell_coord_exec(1000, 10, 5), 4);
}

#[test]
fn grid_index_stays_in_grid() {
    let sys = ParticleSystem::new(1280 * UNIT, 720 * UNIT, 20 * UNIT, 4 * UNIT, &vec![]).unwrap();
    let b = sys.bounds;
    let cells = sys.field.columns * sys.field.rows;
    for &x in [b.left, b.left + 1, 0, b.right - 1, b.right].iter() {
        for &y in [b.bottom, b.bottom + 7, 0, b.top - 1, b.top].iter() {
            let i = sys.field.index_of(Vec2::new(x, y), &b, sys.tile);
            assert!(i < cells);
        }
    }
    assert_eq!(sys.field.index_of(Vec2::new(b.left, b.bottom), &b, sys.tile), 0);
    assert_eq!(sys.field.index_of(Vec2::new(b.right, b.top), &b, sys.tile), 35 * 64 + 63);
    assert_eq!(sys.field.index_of(Vec2::new(0, 0), &b, sys.tile), 18 * 64 + 32);
    assert_eq!(sys.field.index_of(Vec2::new(b.left - 5 * UNIT, b.bottom - 5 * UNIT), &b, sys.tile), 0);
    assert_eq!(sys.field.index_of(Vec2::new(-b.right + 20 * UNIT, -b.top + 40 * UNIT), &b, sys.tile), 2 * 64 + 1);
}

#[test]
fn particle_count_is_fixed() {
    let mut positions = Vec::new();
    let mut i: i64 = 0;
    while i < 10000 {
        positions.push(Vec2::new((i * 7919) % (1280 * UNIT) - 640 * UNIT, (i * 104729) % (720 * UNIT) - 360 * UNIT));
        i += 1;
    }
    let mut sys = ParticleSystem::new(1280 * UNIT, 720 * UNIT, 20 * UNIT, 4 * UNIT, &positions).unwrap();
    assert_eq!(sys.len(), 10000);
    let n = sys.field.len();
    let mut frame: usize = 0;
    while frame < 5 {
        let d = if frame % 2 == 0 { Vec2::new(UNIT, 0) } else { Vec2::new(0, -UNIT) };
        assert_eq!(sys.step(&uniform(n, d)), Ok(()));
        assert_eq!(sys.len(), 10000);
        frame += 1;
    }
    assert_eq!(sys.step(&uniform(3, Vec2::new(UNIT, 0))), Err(FieldError::WrongCount { expected: n, given: 3 }));
    assert_eq!(sys.len(), 10000);
    for p in sys.particles.iter() {
        assert!(sys.bounds.contains_point(p.position));
    }
}

#[test]
fn step_pushes_along_field() {
    let mut sys = ParticleSystem::new(1280 * UNIT, 720 * UNIT, 20 * UNIT, 4 * UNIT, &vec![Vec2::new(0, 0)]).unwrap();
    let n = sys.field.len();
    assert_eq!(sys.step(&uniform(n, Vec2::new(UNIT, 0))), Ok(()));
    let p = sys.particles[0];
    assert_eq!(p.velocity, Vec2::new(2 * UNIT, 0));
    assert_eq!(p.position, Vec2::new(2 * UNIT, 0));
    assert_eq!(p.prev_position, Vec2::new(0, 0));
    assert_eq!(p.acceleration, Vec2::new(0, 0));
    assert_eq!(sys.step(&uniform(n, Vec2::new(UNIT, 0))), Ok(()));
    assert_eq!(sys.particles[0].velocity, Vec2::new(4 * UNIT, 0));
    assert_eq!(sys.step(&uniform(n, Vec2::new(UNIT, 0))), Ok(()));
    assert_eq!(sys.particles[0].velocity, Vec2::new(4 * UNIT, 0));
    assert_eq!(sys.particles[0].position, Vec2::new(10 * UNIT, 0));
}

#[test]
fn step_wraps_at_the_edge() {
    let w = 100 * UNIT;
    let mut sys = ParticleSystem::new(w, w, 10 * UNIT, 4 * UNIT, &vec![Vec2::new(w / 2, 0)]).unwrap();
    let n = sys.field.len();
    assert_eq!(sys.step(&uniform(n, Vec2::new(UNIT, 0))), Ok(()));
    let p = sys.particles[0];
    assert_eq!(p.position, Vec2::new(-w / 2, 0));
    assert_eq!(p.prev_position, Vec2::new(-w / 2, 0));
}

#[test]
fn configuration_errors() {
    let ok = vec![Vec2::new(0, 0)];
    assert_eq!(ParticleSystem::new(0, 720, 20, 4, &ok).err(), Some(ConfigError::BadViewport));
    assert_eq!(ParticleSystem::new(1280, -1, 20, 4, &ok).err(), Some(ConfigError::BadViewport));
    assert_eq!(ParticleSystem::new(1280, 720, 0, 4, &ok).err(), Some(ConfigError::BadTile));
    assert_eq!(ParticleSystem::new(10, 720, 20, 4, &ok).err(), Some(ConfigError::EmptyGrid));
    assert_eq!(ParticleSystem::new(1 << 40, 1 << 40, 1, 4, &ok).err(), Some(ConfigError::GridTooLarge));
    assert_eq!(ParticleSystem::new(1280, 720, 20, -1, &ok).err(), Some(ConfigError::BadSpeed));
    assert_eq!(ParticleSystem::new(1280, 720, 20, 1 << 30, &ok).err(), Some(ConfigError::BadSpeed));
    let outside = vec![Vec2::new(0, 0), Vec2::new(640, 360), Vec2::new(641, 0), Vec2::new(0, 9999)];
    assert_eq!(
        ParticleSystem::new(1280, 720, 20, 4, &outside).err(),
        Some(ConfigError::OutsideViewport { index: 2 })
    );
    assert!(ParticleSystem::new(1280, 720, 20, 4, &outside[..2].to_vec()).is_ok());
}
