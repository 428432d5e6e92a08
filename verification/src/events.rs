use vstd::prelude::*;

use crate::entity::{snapshot, Entity, EntityModel, EntityState};
use crate::logibaba::MovementDirection;

verus! {

/// The keys the game listens to; every other key is `Other`.
#[derive(Debug, Clone, Copy, PartialEq, Eq, Structural)]
pub enum Key {
    W,
    A,
    S,
    D,
    Up,
    Left,
    Down,
    Right,
    P,
    Space,
    Backquote,
    Escape,
    Other,
}

/// What can come in from the window and the keyboard, as far as the game
/// cares.
#[derive(Debug, Clone, Copy, PartialEq, Eq, Structural)]
pub enum InputEvent {
    /// The window was asked to close.
    Quit,
    KeyDown(Key),
    KeyUp(Key),
    /// The window was resized to this width and height.
    WindowResized(i32, i32),
    /// Anything else.
    Other,
}

/// What the surroundings are to do after an event was processed.
#[derive(Debug, Clone, Copy, PartialEq, Eq, Structural)]
pub enum EventAction {
    /// Leave the game loop.
    Quit,
    /// Give the window this width and height.
    ResizeWindow(i32, i32),
    /// Show the diagnostic console if it is hidden, hide it if it is shown.
    ToggleConsole,
    /// The tags of the entities changed: report them.
    ReportRules,
    Nothing,
}

/// The movement asked for by the keys seen so far in one round of events.
#[derive(Debug, Clone, Copy)]
pub struct PendingInput {
    pub movement_direction: Option<MovementDirection>,
    pub facing: Option<MovementDirection>,
}

impl Key {
    /// The direction a key stands for, if it is one of the eight movement
    /// keys.
    pub open spec fn direction(self) -> Option<MovementDirection> {
        match self {
            Key::W | Key::Up => Some(MovementDirection::Up),
            Key::A | Key::Left => Some(MovementDirection::Left),
            Key::S | Key::Down => Some(MovementDirection::Down),
            Key::D | Key::Right => Some(MovementDirection::Right),
            _ => None,
        }
    }

    /// The direction a key stands for, if it is one of the eight movement
    /// keys.
    pub fn to_direction(self) -> (direction: Option<MovementDirection>)
        ensures
            direction == self.direction(),
    {
        match self {
            Key::W | Key::Up => Some(MovementDirection::Up),
            Key::A | Key::Left => Some(MovementDirection::Left),
            Key::S | Key::Down => Some(MovementDirection::Down),
            Key::D | Key::Right => Some(MovementDirection::Right),
            _ => None,
        }
    }
}

impl InputEvent {
    /// Whether the event ends the game: the window closing, or Escape
    /// pressed.
    pub open spec fn quits(self) -> bool {
        self == InputEvent::Quit || self == InputEvent::KeyDown(Key::Escape)
    }

    /// The tag that the event switches on every entity, if it switches one:
    /// P switches `Push`, the space bar `Stop`.
    pub open spec fn toggles(self) -> Option<EntityState> {
        match self {
            InputEvent::KeyDown(Key::P) => Some(EntityState::Push),
            InputEvent::KeyDown(Key::Space) => Some(EntityState::Stop),
            _ => None,
        }
    }

    /// What the surroundings are to do after the event.
    pub open spec fn action(self) -> EventAction {
        match self {
            InputEvent::Quit => EventAction::Quit,
            InputEvent::KeyDown(Key::Escape) => EventAction::Quit,
            InputEvent::WindowResized(width, height) => EventAction::ResizeWindow(width, height),
            InputEvent::KeyDown(Key::P) => EventAction::ReportRules,
            InputEvent::KeyDown(Key::Space) => EventAction::ReportRules,
            InputEvent::KeyDown(Key::Backquote) => EventAction::ToggleConsole,
            _ => EventAction::Nothing,
        }
    }
}

impl PendingInput {
    /// Nothing asked for yet.
    pub open spec fn nothing() -> PendingInput {
        PendingInput { movement_direction: None, facing: None }
    }

    /// Nothing asked for yet.
    pub fn new() -> (pending: PendingInput)
        ensures
            pending == PendingInput::nothing(),
    {
        PendingInput { movement_direction: None, facing: None }
    }

    /// What is asked for once `event` is seen: a movement key pressed asks to
    /// go and to face its way; a movement key released asks to stand still
    /// and leaves the facing alone; nothing else changes what is asked.
    pub open spec fn after(self, event: InputEvent) -> PendingInput {
        match event {
            InputEvent::KeyDown(key) => match key.direction() {
                Some(direction) => PendingInput {
                    movement_direction: Some(direction),
                    facing: Some(direction),
                },
                None => self,
            },
            InputEvent::KeyUp(key) => match key.direction() {
                Some(_) => PendingInput {
                    movement_direction: Some(MovementDirection::Idle),
                    facing: self.facing,
                },
                None => self,
            },
            _ => self,
        }
    }
}

impl EntityModel {
    /// The entity with `state` switched: taken away where present, added
    /// (with `true`) where absent.
    pub open spec fn toggled(self, state: EntityState) -> EntityModel {
        EntityModel {
            states: if self.has(state) {
                self.states.remove(state)
            } else {
                self.states.insert(state, true)
            },
            ..self
        }
    }

    /// The entity told what is asked for: only an entity that carries `You`
    /// listens, and only when something is asked; it then means to go the
    /// way asked, and faces the way asked if one is.
    pub open spec fn steered(self, pending: PendingInput) -> EntityModel {
        match pending.movement_direction {
            Some(direction) if self.has(EntityState::You) => EntityModel {
                movement_direction: direction,
                facing: match pending.facing {
                    Some(facing) => facing,
                    None => self.facing,
                },
                ..self
            },
            _ => self,
        }
    }

    /// The entity after `event`, with `pending` asked for before it. An
    /// event that ends the game changes nothing.
    pub open spec fn after_event(self, pending: PendingInput, event: InputEvent) -> EntityModel {
        if event.quits() {
            self
        } else {
            let switched = match event.toggles() {
                Some(state) => self.toggled(state),
                None => self,
            };
            switched.steered(pending.after(event))
        }
    }
}

/// Every entity after `event`.
pub open spec fn after_event(
    entities: Seq<EntityModel>,
    pending: PendingInput,
    event: InputEvent,
) -> Seq<EntityModel> {
    Seq::new(entities.len(), |i: int| entities[i].after_event(pending, event))
}

/// Where a round of events stands.
pub struct Round {
    pub entities: Seq<EntityModel>,
    pub pending: PendingInput,
    /// No event so far ended the game.
    pub running: bool,
    /// The action for every event processed, in order.
    pub actions: Seq<EventAction>,
}

/// Where a round stands after `events`, begun with `entities`. Events are
/// processed in order; nothing after one that ends the game is processed.
pub open spec fn round_after(entities: Seq<EntityModel>, events: Seq<InputEvent>) -> Round
    decreases events.len(),
{
    if events.len() == 0 {
        Round {
            entities,
            pending: PendingInput::nothing(),
            running: true,
            actions: Seq::empty(),
        }
    } else {
        let before = round_after(entities, events.drop_last());
        if before.running {
            Round {
                entities: after_event(before.entities, before.pending, events.last()),
                pending: if events.last().quits() {
                    before.pending
                } else {
                    before.pending.after(events.last())
                },
                running: !events.last().quits(),
                actions: before.actions.push(events.last().action()),
            }
        } else {
            before
        }
    }
}

/// A round that an event has ended stays as it is, whatever follows.
pub proof fn lemma_ended_round_stays(
    entities: Seq<EntityModel>,
    events: Seq<InputEvent>,
    count: int,
)
    requires
        0 <= count <= events.len(),
        !round_after(entities, events.take(count)).running,
    ensures
        round_after(entities, events) == round_after(entities, events.take(count)),
    decreases events.len() - count,
{
    if count < events.len() {
        assert(events.take(count + 1).drop_last() =~= events.take(count));
        lemma_ended_round_stays(entities, events, count + 1);
    } else {
        assert(events.take(count) =~= events);
    }
}

/// The part of the game that listens to the window and the keyboard.
pub struct Events;

impl Events {
    /// Processes one event. `pending` is what the keys of this round have
    /// asked for so far.
    ///
    /// An event that ends the game changes nothing. Otherwise P switches
    /// `Push` on every entity and the space bar `Stop`, a movement key
    /// changes what is asked for, and last every entity that carries `You`
    /// is told what is asked for, if anything is. The result says what is
    /// left for the surroundings to do.
    pub fn process_event(
        entities: &mut Vec<Entity>,
        pending: &mut PendingInput,
        event: InputEvent,
    ) -> (action: EventAction)
        ensures
            action == event.action(),
            snapshot(final(entities)@) == after_event(
                snapshot(old(entities)@),
                *old(pending),
                event,
            ),
            *final(pending) == (if event.quits() {
                *old(pending)
            } else {
                old(pending).after(event)
            }),
    {
        let ghost before = snapshot(entities@);
        let ghost target = after_event(before, *pending, event);
        let mut switched: Option<EntityState> = None;
        let action = match event {
            InputEvent::Quit => {
                assert(snapshot(entities@) =~= target);
                return EventAction::Quit;
            },
            InputEvent::KeyDown(Key::Escape) => {
                assert(snapshot(entities@) =~= target);
                return EventAction::Quit;
            },
            InputEvent::WindowResized(width, height) => EventAction::ResizeWindow(width, height),
            InputEvent::KeyDown(key) => {
                match key.to_direction() {
                    Some(direction) => {
                        pending.movement_direction = Some(direction);
                        pending.facing = Some(direction);
                        EventAction::Nothing
                    },
                    None => match key {
                        Key::P => {
                            switched = Some(EntityState::Push);
                            EventAction::ReportRules
                        },
                        Key::Space => {
                            switched = Some(EntityState::Stop);
                            EventAction::ReportRules
                        },
                        Key::Backquote => EventAction::ToggleConsole,
                        _ => EventAction::Nothing,
                    },
                }
            },
            InputEvent::KeyUp(key) => {
                if key.to_direction().is_some() {
                    pending.movement_direction = Some(MovementDirection::Idle);
                }
                EventAction::Nothing
            },
            InputEvent::Other => EventAction::Nothing,
        };
        let mut i: usize = 0;
        while i < entities.len()
            invariant
                i <= entities.len(),
                before.len() == entities.len(),
                !event.quits(),
                switched == event.toggles(),
                *pending == old(pending).after(event),
                target == after_event(before, *old(pending), event),
                forall|j: int| 0 <= j < i ==> (#[trigger] entities@[j])@ == target[j],
                forall|j: int| i <= j < entities.len() ==> (#[trigger] entities@[j])@ == before[j],
            decreases entities.len() - i,
        {
            match switched {
                Some(state) => {
                    if !entities[i].states.contains_key(state) {
                        entities[i].states.insert(state, true);
                    } else {
                        entities[i].states.remove(state);
                    }
                },
                None => {},
            }
            match pending.movement_direction {
                Some(direction) => {
                    if entities[i].states.contains_key(EntityState::You) {
                        entities[i].movement_direction = direction;
                        match pending.facing {
                            Some(facing) => {
                                entities[i].facing = facing;
                            },
                            None => {},
                        }
                    }
                },
                None => {},
            }
            assert(entities@[i as int]@ =~~= target[i as int]);
            i += 1;
        }
        assert(snapshot(entities@) =~= target);
        action
    }

    /// Processes a round of events in order, up to and with the first that
    /// ends the game. Returns whether the game goes on, and the action for
    /// every event processed.
    pub fn process_events(entities: &mut Vec<Entity>, events: &Vec<InputEvent>) -> (outcome: (
        bool,
        Vec<EventAction>,
    ))
        ensures
            snapshot(final(entities)@) == round_after(snapshot(old(entities)@), events@).entities,
            outcome.0 == round_after(snapshot(old(entities)@), events@).running,
            outcome.1@ == round_after(snapshot(old(entities)@), events@).actions,
    {
        let ghost start = snapshot(entities@);
        let mut pending = PendingInput::new();
        let mut actions: Vec<EventAction> = Vec::new();
        let mut running = true;
        let mut i: usize = 0;
        assert(events@.take(0) =~= Seq::empty());
        while running && i < events.len()
            invariant
                i <= events.len(),
                round_after(start, events@.take(i as int)) == (Round {
                    entities: snapshot(entities@),
                    pending,
                    running,
                    actions: actions@,
                }),
            decreases events.len() - i,
        {
            let event = events[i];
            proof {
                assert(events@.take(i + 1).drop_last() =~= events@.take(i as int));
                assert(events@.take(i + 1).last() == event);
            }
            let action = Self::process_event(entities, &mut pending, event);
            running = action != EventAction::Quit;
            actions.push(action);
            i += 1;
        }
        proof {
            if running {
                assert(events@.take(i as int) =~= events@);
            } else {
                lemma_ended_round_stays(start, events@, i as int);
            }
        }
        (running, actions)
    }
}

} // verus!
