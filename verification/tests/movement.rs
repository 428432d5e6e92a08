use std::collections::HashSet;

use logibaba::entity::{Entity, EntityRepository, EntityState};
use logibaba::grid::EntityMap;
use logibaba::logibaba::MovementDirection;
use logibaba::screen_renderer::ScreenRenderer;

fn made(name: &str, column: i32, row: i32) -> Entity {
    let repository = EntityRepository::new(50, 50);
    repository.create_entity(name, column * 50, row * 50).unwrap()
}

fn going(mut entity: Entity, direction: MovementDirection) -> Entity {
    entity.movement_direction = direction;
    entity
}

fn with(mut entity: Entity, state: EntityState) -> Entity {
    entity.states.insert(state, true);
    entity
}

fn only(index: usize) -> Option<HashSet<usize>> {
    let mut set = HashSet::new();
    set.insert(index);
    Some(set)
}

fn renderer() -> ScreenRenderer {
    ScreenRenderer::new(600, 400, 0)
}

fn refreshed(mut entities: Vec<Entity>) -> Vec<Entity> {
    let mut index = EntityMap::new();
    index.rebuild(&entities);
    renderer().update_neighbors(&mut entities, &index);
    entities
}

#[test]
fn a_stop_occupant_bars_the_way() {
    let entities = vec![made("Logi", 0, 0), with(made("Goal", 1, 0), EntityState::Stop)];
    assert!(renderer().check_can_move(&only(1), &entities));
    assert!(!renderer().check_can_move(&only(0), &entities));
    assert!(!renderer().check_can_move(&None, &entities));
    assert!(!renderer().check_can_move(&Some(HashSet::new()), &entities));
}

#[test]
fn a_stop_tag_stored_with_false_still_bars_the_way() {
    let mut wall = made("Goal", 1, 0);
    wall.states.insert(EntityState::Stop, false);
    let entities = vec![made("Logi", 0, 0), wall];
    assert!(renderer().check_can_move(&only(1), &entities));
}

#[test]
fn an_occupant_beyond_the_list_is_nobody() {
    let entities = vec![with(made("Goal", 1, 0), EntityState::Stop)];
    assert!(!renderer().check_can_move(&only(5), &entities));
    assert!(!renderer().check_direction(&only(5), MovementDirection::Idle, &entities));
}

#[test]
fn check_direction_finds_who_goes_that_way() {
    let entities =
        vec![going(made("Logi", 0, 0), MovementDirection::Left), made("Goal", 1, 0)];
    let mut both = HashSet::new();
    both.insert(0);
    both.insert(1);
    assert!(renderer().check_direction(&Some(both.clone()), MovementDirection::Left, &entities));
    assert!(renderer().check_direction(&Some(both.clone()), MovementDirection::Idle, &entities));
    assert!(!renderer().check_direction(&Some(both), MovementDirection::Up, &entities));
    assert!(!renderer().check_direction(&None, MovementDirection::Left, &entities));
}

#[test]
fn a_push_is_told_by_the_side_it_comes_from() {
    let entities = refreshed(vec![
        made("Goal", 5, 5),
        going(made("Logi", 5, 4), MovementDirection::Down),
    ]);
    assert_eq!(
        renderer().check_is_pushed(&entities[0], &entities),
        (true, Some(MovementDirection::Up))
    );
    let entities = refreshed(vec![
        made("Goal", 5, 5),
        going(made("Logi", 6, 5), MovementDirection::Left),
    ]);
    assert_eq!(
        renderer().check_is_pushed(&entities[0], &entities),
        (true, Some(MovementDirection::Right))
    );
    let entities = refreshed(vec![
        made("Goal", 5, 5),
        going(made("Logi", 4, 5), MovementDirection::Right),
    ]);
    assert_eq!(
        renderer().check_is_pushed(&entities[0], &entities),
        (true, Some(MovementDirection::Left))
    );
    let entities = refreshed(vec![
        made("Goal", 5, 5),
        going(made("Logi", 5, 6), MovementDirection::Up),
    ]);
    assert_eq!(
        renderer().check_is_pushed(&entities[0], &entities),
        (true, Some(MovementDirection::Down))
    );
    let entities = refreshed(vec![
        made("Goal", 5, 5),
        going(made("Logi", 5, 6), MovementDirection::Down),
    ]);
    assert_eq!(renderer().check_is_pushed(&entities[0], &entities), (false, None));
}

#[test]
fn pushes_from_several_sides_are_ranked_up_right_left_down() {
    let from_up = going(made("Logi", 5, 4), MovementDirection::Down);
    let from_right = going(made("Logi", 6, 5), MovementDirection::Left);
    let from_left = going(made("Logi", 4, 5), MovementDirection::Right);
    let from_down = going(made("Logi", 5, 6), MovementDirection::Up);
    let block = with(made("Push", 5, 5), EntityState::Push);

    let mut entities = refreshed(vec![
        block.clone(),
        from_down.clone(),
        from_left.clone(),
        from_right.clone(),
        from_up.clone(),
    ]);
    let decided = renderer().resolve(&entities[0], &entities);
    assert_eq!(decided.pushed_from, Some(MovementDirection::Up));
    assert_eq!(decided.new_tile, (5, 6));

    entities = refreshed(vec![
        block.clone(),
        from_down.clone(),
        from_left.clone(),
        from_right.clone(),
    ]);
    let decided = renderer().resolve(&entities[0], &entities);
    assert_eq!(decided.pushed_from, Some(MovementDirection::Right));
    assert_eq!(decided.new_tile, (4, 5));

    entities = refreshed(vec![block.clone(), from_down.clone(), from_left.clone()]);
    let decided = renderer().resolve(&entities[0], &entities);
    assert_eq!(decided.pushed_from, Some(MovementDirection::Left));
    assert_eq!(decided.new_tile, (6, 5));

    entities = refreshed(vec![block.clone(), from_down.clone()]);
    let decided = renderer().resolve(&entities[0], &entities);
    assert_eq!(decided.pushed_from, Some(MovementDirection::Down));
    assert_eq!(decided.new_tile, (5, 4));
    assert!(!decided.can_move);
}

#[test]
fn a_blocked_entity_keeps_its_tile_whatever_its_tags() {
    for extra in [
        EntityState::You,
        EntityState::Win,
        EntityState::Move,
        EntityState::Stop,
        EntityState::Active,
    ] {
        let mover = with(going(made("Logi", 3, 3), MovementDirection::Up), extra);
        let wall = with(made("Goal", 3, 2), EntityState::Stop);
        let entities = refreshed(vec![mover, wall]);
        let decided = renderer().resolve(&entities[0], &entities);
        assert!(!decided.can_move);
        assert_eq!(decided.new_tile, (3, 3));
    }
}

#[test]
fn a_blocked_entity_can_still_be_pushed_away() {
    let mover = with(going(made("Logi", 3, 3), MovementDirection::Up), EntityState::Push);
    let wall = with(made("Goal", 3, 2), EntityState::Stop);
    let pusher = going(made("Logi", 2, 3), MovementDirection::Right);
    let entities = refreshed(vec![mover, wall, pusher]);
    let decided = renderer().resolve(&entities[0], &entities);
    assert!(!decided.can_move);
    assert_eq!(decided.pushed_from, Some(MovementDirection::Left));
    assert_eq!(decided.new_tile, (4, 3));
}

#[test]
fn a_pushed_entity_without_intent_goes_where_it_is_pushed() {
    let block = with(made("Push", 5, 5), EntityState::Push);
    let pusher = going(made("Logi", 5, 4), MovementDirection::Down);
    let entities = refreshed(vec![block, pusher]);
    let decided = renderer().resolve(&entities[0], &entities);
    assert!(!decided.can_move);
    assert_eq!(decided.new_tile, (5, 6));
}

#[test]
fn an_idle_player_that_is_pushed_goes_where_it_is_pushed() {
    let block = with(made("Logi", 5, 5), EntityState::Push);
    let pusher = going(made("Logi", 4, 5), MovementDirection::Right);
    let entities = refreshed(vec![block, pusher]);
    let decided = renderer().resolve(&entities[0], &entities);
    assert!(!decided.can_move);
    assert_eq!(decided.new_tile, (6, 5));
}

#[test]
fn its_own_move_wins_over_a_push() {
    let block = with(going(made("Logi", 5, 5), MovementDirection::Up), EntityState::Push);
    let pusher = going(made("Logi", 4, 5), MovementDirection::Right);
    let entities = refreshed(vec![block, pusher]);
    let decided = renderer().resolve(&entities[0], &entities);
    assert!(decided.can_move);
    assert_eq!(decided.pushed_from, Some(MovementDirection::Left));
    assert_eq!(decided.new_tile, (5, 4));
}

#[test]
fn an_entity_without_push_is_not_pushed() {
    let rock = made("Goal", 5, 5);
    let pusher = going(made("Logi", 4, 5), MovementDirection::Right);
    let entities = refreshed(vec![rock, pusher]);
    let decided = renderer().resolve(&entities[0], &entities);
    assert_eq!(decided.pushed_from, None);
    assert_eq!(decided.new_tile, (5, 5));
}

#[test]
fn update_positions_holds_a_tile_for_every_entity() {
    let entities = refreshed(vec![
        going(made("Logi", 11, 7), MovementDirection::Down),
        with(made("Push", 11, 0), EntityState::Push),
        made("Goal", 3, 3),
    ]);
    let positions = renderer().update_positions(&entities);
    assert_eq!(positions.len(), 3);
    assert_eq!(positions.get(&0), Some(&(11, 8)));
    assert_eq!(positions.get(&1), Some(&(11, 1)));
    assert_eq!(positions.get(&2), Some(&(3, 3)));
    assert_eq!(entities[0].tile, (11, 7));
}

#[test]
fn update_positions_reads_the_recorded_neighbors_only() {
    let mut entities = vec![
        going(made("Logi", 0, 0), MovementDirection::Right),
        with(made("Goal", 1, 0), EntityState::Stop),
    ];
    let positions = renderer().update_positions(&entities);
    assert_eq!(positions.get(&0), Some(&(1, 0)));
    entities[0].neighbors.right = only(1);
    let positions = renderer().update_positions(&entities);
    assert_eq!(positions.get(&0), Some(&(0, 0)));
}

#[test]
fn update_entity_map_writes_back_and_indexes_everyone() {
    let mut entities = vec![made("Logi", 0, 0), made("Goal", 2, 2), made("Goal", 3, 3)];
    let mut positions = std::collections::HashMap::new();
    positions.insert(0, (12, -1));
    positions.insert(1, (2, 3));
    positions.insert(9, (1, 1));
    let mut index = EntityMap::new();
    index.insert((9, 9), 4);
    renderer().update_entity_map(&mut entities, &mut index, positions);
    assert_eq!(entities[0].tile, (0, 7));
    assert_eq!(entities[0].position, (0, 350));
    assert_eq!(entities[1].tile, (2, 3));
    assert_eq!(entities[1].position, (100, 150));
    assert_eq!(entities[2].tile, (3, 3));
    assert_eq!(entities[2].position, (150, 150));
    assert!(index.contains((0, 7), 0));
    assert!(index.contains((2, 3), 1));
    assert!(index.contains((3, 3), 2));
    assert!(index.get((9, 9)).is_none());
    assert!(index.get((1, 1)).is_none());
}
