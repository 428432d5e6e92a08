use std::collections::HashSet;

use logibaba::entity::{Entity, EntityRepository, Neighbors};
use logibaba::grid::{adjacent_tile, EntityMap, GRID_COLUMNS, GRID_ROWS};
use logibaba::logibaba::MovementDirection;
use logibaba::screen_renderer::ScreenRenderer;

fn goal_on(column: i32, row: i32) -> Entity {
    let repository = EntityRepository::new(10, 20);
    let mut made = repository.create_entity("Goal", 0, 0).unwrap();
    made.tile = (column, row);
    made
}

fn set_of(indices: &[usize]) -> HashSet<usize> {
    let mut set = HashSet::new();
    for index in indices {
        set.insert(*index);
    }
    set
}

#[test]
fn the_field_is_twelve_by_eight() {
    assert_eq!(GRID_COLUMNS, 12);
    assert_eq!(GRID_ROWS, 8);
}

#[test]
fn a_new_index_is_empty() {
    let index = EntityMap::new();
    assert!(index.get((0, 0)).is_none());
    assert!(!index.contains((0, 0), 0));
}

#[test]
fn insert_gathers_the_occupants_of_a_tile() {
    let mut index = EntityMap::new();
    index.insert((3, 4), 7);
    index.insert((3, 4), 2);
    index.insert((4, 3), 5);
    assert_eq!(index.get((3, 4)), Some(&set_of(&[2, 7])));
    assert_eq!(index.get((4, 3)), Some(&set_of(&[5])));
    assert!(index.get((0, 0)).is_none());
}

#[test]
fn tiles_that_differ_in_one_coordinate_are_kept_apart() {
    let mut index = EntityMap::new();
    index.insert((0, -1), 1);
    index.insert((-1, 0), 2);
    index.insert((i32::MIN, i32::MIN), 3);
    index.insert((i32::MAX, i32::MAX), 4);
    index.insert((i32::MIN, i32::MAX), 5);
    index.insert((i32::MAX, i32::MIN), 6);
    index.insert((0, 0), 7);
    index.insert((1, i32::MIN), 8);
    assert_eq!(index.get((0, -1)), Some(&set_of(&[1])));
    assert_eq!(index.get((-1, 0)), Some(&set_of(&[2])));
    assert_eq!(index.get((i32::MIN, i32::MIN)), Some(&set_of(&[3])));
    assert_eq!(index.get((i32::MAX, i32::MAX)), Some(&set_of(&[4])));
    assert_eq!(index.get((i32::MIN, i32::MAX)), Some(&set_of(&[5])));
    assert_eq!(index.get((i32::MAX, i32::MIN)), Some(&set_of(&[6])));
    assert_eq!(index.get((0, 0)), Some(&set_of(&[7])));
    assert_eq!(index.get((1, i32::MIN)), Some(&set_of(&[8])));
}

#[test]
fn clear_forgets_every_tile() {
    let mut index = EntityMap::new();
    index.insert((1, 1), 0);
    index.clear();
    assert!(index.get((1, 1)).is_none());
}

#[test]
fn rebuild_records_every_entity_exactly_once() {
    let entities = vec![goal_on(0, 0), goal_on(3, 2), goal_on(0, 0), goal_on(11, 7)];
    let mut index = EntityMap::new();
    index.insert((5, 5), 9);
    index.rebuild(&entities);
    assert_eq!(index.get((0, 0)), Some(&set_of(&[0, 2])));
    assert_eq!(index.get((3, 2)), Some(&set_of(&[1])));
    assert_eq!(index.get((11, 7)), Some(&set_of(&[3])));
    assert!(index.get((5, 5)).is_none());
    for (i, entity) in entities.iter().enumerate() {
        let mut found = 0;
        for column in 0..12 {
            for row in 0..8 {
                if index.contains((column, row), i) {
                    found += 1;
                    assert_eq!(entity.tile, (column, row));
                }
            }
        }
        assert_eq!(found, 1);
    }
}

#[test]
fn rebuild_of_no_entities_is_empty() {
    let entities: Vec<Entity> = Vec::new();
    let mut index = EntityMap::new();
    index.insert((1, 1), 0);
    index.rebuild(&entities);
    assert!(index.get((1, 1)).is_none());
}

#[test]
fn neighbors_start_unknown() {
    let neighbors = Neighbors::new();
    assert!(neighbors.up.is_none());
    assert!(neighbors.right.is_none());
    assert!(neighbors.down.is_none());
    assert!(neighbors.left.is_none());
}

#[test]
fn neighbors_are_looked_up_on_all_four_sides() {
    let mut entities =
        vec![goal_on(5, 5), goal_on(5, 4), goal_on(6, 5), goal_on(5, 6), goal_on(4, 5)];
    let mut index = EntityMap::new();
    index.rebuild(&entities);
    let renderer = ScreenRenderer::new(600, 400, 0);
    renderer.update_neighbors(&mut entities, &index);
    assert_eq!(entities[0].neighbors.up, Some(set_of(&[1])));
    assert_eq!(entities[0].neighbors.right, Some(set_of(&[2])));
    assert_eq!(entities[0].neighbors.down, Some(set_of(&[3])));
    assert_eq!(entities[0].neighbors.left, Some(set_of(&[4])));
    assert_eq!(entities[1].neighbors.down, Some(set_of(&[0])));
    assert!(entities[1].neighbors.up.is_none());
    assert_eq!(entities[0].tile, (5, 5));
}

#[test]
fn neighbors_wrap_around_the_corner() {
    let mut entities = vec![goal_on(0, 0), goal_on(11, 0), goal_on(0, 7), goal_on(11, 7)];
    let mut index = EntityMap::new();
    index.rebuild(&entities);
    let renderer = ScreenRenderer::new(600, 400, 0);
    renderer.update_neighbors(&mut entities, &index);
    assert_eq!(entities[0].neighbors.left, Some(set_of(&[1])));
    assert_eq!(entities[0].neighbors.right, None);
    assert_eq!(entities[0].neighbors.up, Some(set_of(&[2])));
    assert_eq!(entities[0].neighbors.down, None);
    assert_eq!(entities[3].neighbors.right, Some(set_of(&[2])));
    assert_eq!(entities[3].neighbors.down, Some(set_of(&[1])));
    assert_eq!(entities[1].neighbors.right, Some(set_of(&[0])));
    assert_eq!(entities[2].neighbors.down, Some(set_of(&[0])));
}

#[test]
fn up_right_down_left_comes_back() {
    for column in 0..12 {
        for row in 0..8 {
            let up = (column, (row - 1 + 8) % 8);
            let right = ((up.0 + 1 + 12) % 12, up.1);
            let down = (right.0, (right.1 + 1 + 8) % 8);
            let mut entities = vec![goal_on(column, row), goal_on(down.0, down.1)];
            let mut index = EntityMap::new();
            index.rebuild(&entities);
            let renderer = ScreenRenderer::new(600, 400, 0);
            renderer.update_neighbors(&mut entities, &index);
            assert_eq!(entities[1].neighbors.left, Some(set_of(&[0])));
        }
    }
}

#[test]
fn neighbors_of_a_tile_off_the_field_wrap_too() {
    let mut entities = vec![goal_on(-20, -3), goal_on(4, 5), goal_on(5, 4)];
    let mut index = EntityMap::new();
    index.rebuild(&entities);
    let renderer = ScreenRenderer::new(600, 400, 0);
    renderer.update_neighbors(&mut entities, &index);
    assert_eq!(entities[0].neighbors.down, None);
    assert_eq!(entities[0].neighbors.right, None);
    let mut entities = vec![goal_on(-20, -3), goal_on(-20, 6), goal_on(5, -3)];
    index.rebuild(&entities);
    renderer.update_neighbors(&mut entities, &index);
    assert_eq!(entities[0].neighbors.down, Some(set_of(&[1])));
    assert_eq!(entities[0].neighbors.right, Some(set_of(&[2])));
}

#[test]
fn a_smaller_torus_wraps_sooner() {
    let mut entities = vec![goal_on(3, 1), goal_on(0, 1), goal_on(3, 0)];
    let mut index = EntityMap::new();
    index.rebuild(&entities);
    let mut renderer = ScreenRenderer::new(600, 400, 0);
    renderer.grid_size = (4, 2);
    renderer.update_neighbors(&mut entities, &index);
    assert_eq!(entities[0].neighbors.right, Some(set_of(&[1])));
    assert_eq!(entities[0].neighbors.down, Some(set_of(&[2])));
    assert_eq!(entities[0].neighbors.up, Some(set_of(&[2])));
}

#[test]
fn tile_to_position_wraps_and_scales() {
    let mut entity = goal_on(12, 8);
    entity.tile_to_position(10, 20);
    assert_eq!(entity.tile, (0, 0));
    assert_eq!(entity.position, (0, 0));
    let mut entity = goal_on(-1, -1);
    entity.tile_to_position(10, 20);
    assert_eq!(entity.tile, (11, 7));
    assert_eq!(entity.position, (110, 140));
    let mut entity = goal_on(3, 5);
    entity.tile_to_position(10, 20);
    assert_eq!(entity.tile, (3, 5));
    assert_eq!(entity.position, (30, 100));
    let mut entity = goal_on(40, -9);
    entity.tile_to_position(10, 20);
    assert_eq!(entity.tile, (0, 7));
    assert_eq!(entity.position, (0, 140));
}

#[test]
fn adjacent_tiles_on_the_field() {
    let size = (12, 8);
    assert_eq!(adjacent_tile((5, 5), MovementDirection::Up, size), (5, 4));
    assert_eq!(adjacent_tile((5, 5), MovementDirection::Right, size), (6, 5));
    assert_eq!(adjacent_tile((5, 5), MovementDirection::Down, size), (5, 6));
    assert_eq!(adjacent_tile((5, 5), MovementDirection::Left, size), (4, 5));
    assert_eq!(adjacent_tile((5, 5), MovementDirection::Idle, size), (5, 5));
    assert_eq!(adjacent_tile((0, 0), MovementDirection::Up, size), (0, 7));
    assert_eq!(adjacent_tile((0, 0), MovementDirection::Left, size), (11, 0));
    assert_eq!(adjacent_tile((11, 7), MovementDirection::Right, size), (0, 7));
    assert_eq!(adjacent_tile((11, 7), MovementDirection::Down, size), (11, 0));
}

#[test]
fn adjacent_tiles_of_a_tile_off_the_grid() {
    let size = (12, 8);
    assert_eq!(adjacent_tile((-20, -3), MovementDirection::Right, size), (5, -3));
    assert_eq!(adjacent_tile((-20, -3), MovementDirection::Left, size), (3, -3));
    assert_eq!(adjacent_tile((-20, -3), MovementDirection::Down, size), (-20, 6));
    assert_eq!(adjacent_tile((-20, -3), MovementDirection::Up, size), (-20, 4));
    assert_eq!(adjacent_tile((30, 17), MovementDirection::Right, size), (7, 17));
    assert_eq!(adjacent_tile((30, 17), MovementDirection::Up, size), (30, 0));
    assert_eq!(
        adjacent_tile((i32::MAX, i32::MIN), MovementDirection::Right, (i32::MAX, i32::MAX)),
        (1, i32::MIN)
    );
    assert_eq!(
        adjacent_tile((i32::MAX, i32::MIN), MovementDirection::Up, (i32::MAX, i32::MAX)),
        (i32::MAX, i32::MAX - 2)
    );
    assert_eq!(adjacent_tile((7, 7), MovementDirection::Left, (1, 1)), (0, 7));
}

#[test]
fn up_right_down_left_ends_where_it_began() {
    for size in [(12, 8), (1, 1), (5, 3), (2, 7)] {
        for column in 0..size.0 {
            for row in 0..size.1 {
                let up = adjacent_tile((column, row), MovementDirection::Up, size);
                let right = adjacent_tile(up, MovementDirection::Right, size);
                let down = adjacent_tile(right, MovementDirection::Down, size);
                let left = adjacent_tile(down, MovementDirection::Left, size);
                assert_eq!(left, (column, row));
                assert!(0 <= right.0 && right.0 < size.0 && 0 <= right.1 && right.1 < size.1);
            }
        }
    }
}
