use logibaba::entity::{Entity, EntityRepository, EntityState};
use logibaba::events::{EventAction, Events, InputEvent, Key, PendingInput};
use logibaba::logibaba::MovementDirection;

fn cast() -> Vec<Entity> {
    let repository = EntityRepository::new(50, 50);
    vec![
        repository.create_entity("Goal", 0, 0).unwrap(),
        repository.create_entity("Logi", 50, 0).unwrap(),
        repository.create_entity("Push", 100, 0).unwrap(),
    ]
}

#[test]
fn movement_keys_stand_for_directions() {
    assert_eq!(Key::W.to_direction(), Some(MovementDirection::Up));
    assert_eq!(Key::Up.to_direction(), Some(MovementDirection::Up));
    assert_eq!(Key::A.to_direction(), Some(MovementDirection::Left));
    assert_eq!(Key::Left.to_direction(), Some(MovementDirection::Left));
    assert_eq!(Key::S.to_direction(), Some(MovementDirection::Down));
    assert_eq!(Key::Down.to_direction(), Some(MovementDirection::Down));
    assert_eq!(Key::D.to_direction(), Some(MovementDirection::Right));
    assert_eq!(Key::Right.to_direction(), Some(MovementDirection::Right));
    for key in [Key::P, Key::Space, Key::Backquote, Key::Escape, Key::Other] {
        assert_eq!(key.to_direction(), None);
    }
}

#[test]
fn a_movement_key_steers_the_player_only() {
    let mut entities = cast();
    let mut pending = PendingInput::new();
    let action =
        Events::process_event(&mut entities, &mut pending, InputEvent::KeyDown(Key::A));
    assert_eq!(action, EventAction::Nothing);
    assert_eq!(pending.movement_direction, Some(MovementDirection::Left));
    assert_eq!(pending.facing, Some(MovementDirection::Left));
    assert_eq!(entities[1].movement_direction, MovementDirection::Left);
    assert_eq!(entities[1].facing, MovementDirection::Left);
    assert_eq!(entities[0].movement_direction, MovementDirection::Idle);
    assert_eq!(entities[0].facing, MovementDirection::Right);
    assert_eq!(entities[2].movement_direction, MovementDirection::Idle);
}

#[test]
fn releasing_a_movement_key_stops_the_player_and_keeps_the_facing() {
    let mut entities = cast();
    entities[1].movement_direction = MovementDirection::Up;
    entities[1].facing = MovementDirection::Up;
    let mut pending = PendingInput::new();
    let action = Events::process_event(&mut entities, &mut pending, InputEvent::KeyUp(Key::D));
    assert_eq!(action, EventAction::Nothing);
    assert_eq!(pending.movement_direction, Some(MovementDirection::Idle));
    assert_eq!(pending.facing, None);
    assert_eq!(entities[1].movement_direction, MovementDirection::Idle);
    assert_eq!(entities[1].facing, MovementDirection::Up);
}

#[test]
fn releasing_another_key_changes_nothing() {
    let mut entities = cast();
    entities[1].movement_direction = MovementDirection::Up;
    let mut pending = PendingInput::new();
    Events::process_event(&mut entities, &mut pending, InputEvent::KeyUp(Key::P));
    assert_eq!(pending.movement_direction, None);
    assert_eq!(entities[1].movement_direction, MovementDirection::Up);
    assert!(!entities[1].states.contains_key(EntityState::Push));
}

#[test]
fn p_switches_push_on_every_entity() {
    let mut entities = cast();
    entities[2].states.insert(EntityState::Push, false);
    let mut pending = PendingInput::new();
    let action =
        Events::process_event(&mut entities, &mut pending, InputEvent::KeyDown(Key::P));
    assert_eq!(action, EventAction::ReportRules);
    assert_eq!(entities[0].states.get(EntityState::Push), Some(true));
    assert_eq!(entities[1].states.get(EntityState::Push), Some(true));
    assert_eq!(entities[2].states.get(EntityState::Push), None);
    assert_eq!(entities[0].states.get(EntityState::Win), Some(true));
    assert!(!entities[0].states.contains_key(EntityState::Stop));
    Events::process_event(&mut entities, &mut pending, InputEvent::KeyDown(Key::P));
    assert_eq!(entities[0].states.get(EntityState::Push), None);
    assert_eq!(entities[2].states.get(EntityState::Push), Some(true));
}

#[test]
fn space_switches_stop_on_every_entity() {
    let mut entities = cast();
    let mut pending = PendingInput::new();
    let action =
        Events::process_event(&mut entities, &mut pending, InputEvent::KeyDown(Key::Space));
    assert_eq!(action, EventAction::ReportRules);
    for entity in &entities {
        assert_eq!(entity.states.get(EntityState::Stop), Some(true));
        assert!(!entity.states.contains_key(EntityState::Push));
    }
}

#[test]
fn quit_and_escape_end_the_game_and_change_nothing() {
    for event in [InputEvent::Quit, InputEvent::KeyDown(Key::Escape)] {
        let mut entities = cast();
        let mut pending = PendingInput::new();
        pending.movement_direction = Some(MovementDirection::Down);
        let action = Events::process_event(&mut entities, &mut pending, event);
        assert_eq!(action, EventAction::Quit);
        assert_eq!(entities[1].movement_direction, MovementDirection::Idle);
        assert_eq!(pending.movement_direction, Some(MovementDirection::Down));
    }
    let mut entities = cast();
    let mut pending = PendingInput::new();
    let action =
        Events::process_event(&mut entities, &mut pending, InputEvent::KeyUp(Key::Escape));
    assert_eq!(action, EventAction::Nothing);
}

#[test]
fn other_events_are_handed_on() {
    let mut entities = cast();
    let mut pending = PendingInput::new();
    assert_eq!(
        Events::process_event(&mut entities, &mut pending, InputEvent::WindowResized(800, 600)),
        EventAction::ResizeWindow(800, 600)
    );
    assert_eq!(
        Events::process_event(&mut entities, &mut pending, InputEvent::KeyDown(Key::Backquote)),
        EventAction::ToggleConsole
    );
    assert_eq!(
        Events::process_event(&mut entities, &mut pending, InputEvent::KeyDown(Key::Other)),
        EventAction::Nothing
    );
    assert_eq!(
        Events::process_event(&mut entities, &mut pending, InputEvent::Other),
        EventAction::Nothing
    );
    assert_eq!(entities[1].movement_direction, MovementDirection::Idle);
}

#[test]
fn what_is_asked_for_is_told_again_after_every_later_event() {
    let mut entities = cast();
    let mut pending = PendingInput::new();
    Events::process_event(&mut entities, &mut pending, InputEvent::KeyDown(Key::W));
    entities[1].movement_direction = MovementDirection::Idle;
    Events::process_event(&mut entities, &mut pending, InputEvent::Other);
    assert_eq!(entities[1].movement_direction, MovementDirection::Up);
}

#[test]
fn a_round_is_processed_in_order() {
    let mut entities = cast();
    let events = vec![
        InputEvent::KeyDown(Key::W),
        InputEvent::WindowResized(640, 480),
        InputEvent::KeyDown(Key::D),
        InputEvent::KeyUp(Key::W),
        InputEvent::KeyDown(Key::P),
    ];
    let (running, actions) = Events::process_events(&mut entities, &events);
    assert!(running);
    assert_eq!(
        actions,
        vec![
            EventAction::Nothing,
            EventAction::ResizeWindow(640, 480),
            EventAction::Nothing,
            EventAction::Nothing,
            EventAction::ReportRules,
        ]
    );
    assert_eq!(entities[1].movement_direction, MovementDirection::Idle);
    assert_eq!(entities[1].facing, MovementDirection::Right);
    assert_eq!(entities[1].states.get(EntityState::Push), Some(true));
    assert_eq!(entities[0].movement_direction, MovementDirection::Idle);
}

#[test]
fn a_round_stops_at_the_event_that_ends_the_game() {
    let mut entities = cast();
    let events = vec![
        InputEvent::KeyDown(Key::S),
        InputEvent::Quit,
        InputEvent::KeyDown(Key::P),
        InputEvent::KeyDown(Key::W),
    ];
    let (running, actions) = Events::process_events(&mut entities, &events);
    assert!(!running);
    assert_eq!(actions, vec![EventAction::Nothing, EventAction::Quit]);
    assert_eq!(entities[1].movement_direction, MovementDirection::Down);
    assert!(!entities[1].states.contains_key(EntityState::Push));
}

#[test]
fn an_empty_round_changes_nothing() {
    let mut entities = cast();
    let (running, actions) = Events::process_events(&mut entities, &Vec::new());
    assert!(running);
    assert!(actions.is_empty());
    assert_eq!(entities[1].movement_direction, MovementDirection::Idle);
}
