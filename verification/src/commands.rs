//! The changes that the rules ask for, in the order in which they are to be made.

use vstd::prelude::*;

use crate::display::Display;
use crate::ecs::{
    ActiveDisplayMarker, BProcess, CommandTrigger, ExistingMarker, FocusedMarker, FreshMarker,
    RepositionMarker, ReshuffleAroundMarker, ResizeMarker, SpawnWindowTrigger, WMEventTrigger,
};
use crate::events::{Config, Event};
use crate::geometry::{Point, Rect, Size};
use crate::pane::Entity;
use crate::platform::{Application, DisplayID, Window};
use crate::timeout::Timeout;

verus! {

/// What can be attached to an entity.
#[derive(Clone, Copy, Debug, PartialEq, Eq, Structural)]
pub enum Component {
    Focused(FocusedMarker),
    Reposition(RepositionMarker),
    Resize(ResizeMarker),
    ReshuffleAround(ReshuffleAroundMarker),
}

/// What can be taken off an entity.
#[derive(Clone, Copy, Debug, PartialEq, Eq, Structural)]
pub enum Marker {
    Existing,
    Fresh,
    Timeout,
    Reposition,
    Resize,
    ReshuffleAround,
    WindowSwipe,
}

/// What a new entity is made of.
#[derive(Debug)]
pub enum Bundle {
    /// A display, with the marker if it is the active one.
    Display(Display, Option<ActiveDisplayMarker>),
    /// A process that was there before.
    ExistingProcess(ExistingMarker, BProcess),
    /// An application that was there before, as the child of its process.
    ExistingApplication(Application, ExistingMarker, Entity),
    /// An application that has just been launched, with the time that it has to become
    /// observable, as the child of its process.
    FreshApplication(Application, FreshMarker, Timeout, Entity),
}

/// One change.
#[derive(Debug)]
pub enum Action {
    /// Attach a component to an entity, if the entity is still there.
    Insert(Entity, Component),
    /// Take a component off an entity, if the entity is still there and has it.
    Remove(Entity, Marker),
    /// Create an entity.
    Spawn(Bundle),
    /// Remove an entity.
    Despawn(Entity),
    /// Tell whoever listens of an event.
    Trigger(WMEventTrigger),
    /// Tell whoever listens of a command.
    Command(CommandTrigger),
    /// Tell whoever listens of new windows.
    SpawnWindows(SpawnWindowTrigger),
    /// Make a window of an accessibility element, and tell of it if that succeeds.
    CreateWindow(u64),
    /// Move a window on a display with these bounds.
    Reposition(Entity, Point, Rect),
    /// Resize a window on a display with these bounds.
    Resize(Entity, Size, Rect),
    /// Write an event to be dispatched.
    Write(Event),
    /// Keep a configuration.
    Configure(Config),
    /// Leave the main loop.
    Exit,
}

/// Whether a walk over entities goes on.
#[derive(Clone, Copy, Debug, PartialEq, Eq, Structural)]
pub enum Flow {
    /// The next entity is to be looked at.
    Continue,
    /// No further entity is to be looked at.
    Stop,
}

/// A change, as the contracts speak of it.
pub enum Effect {
    /// Tell whoever listens of these windows.
    SpawnWindows(Seq<Window>),
    /// Any other change.
    Do(Action),
}

impl View for Action {
    type V = Effect;

    open spec fn view(&self) -> Effect {
        match *self {
            Action::SpawnWindows(trigger) => Effect::SpawnWindows(trigger.0@),
            action => Effect::Do(action),
        }
    }
}

/// The changes that have been asked for, and the entities that are there.
#[derive(Debug)]
pub struct Commands {
    alive: Vec<Entity>,
    queue: Vec<Action>,
}

impl View for Commands {
    type V = Seq<Effect>;

    closed spec fn view(&self) -> Seq<Effect> {
        self.queue@.map_values(|action: Action| action@)
    }
}

impl Commands {
    /// The entities that are there.
    pub closed spec fn alive(self) -> Seq<Entity> {
        self.alive@
    }

    /// `self` is `before` with `effects` asked for in addition.
    pub open spec fn extends(self, before: Commands, effects: Seq<Effect>) -> bool {
        &&& self.alive() == before.alive()
        &&& self@ == before@ + effects
    }

    /// No changes yet, in a world in which these entities are.
    pub fn new(alive: Vec<Entity>) -> (commands: Commands)
        ensures
            commands.alive() == alive@,
            commands@ == Seq::<Effect>::empty(),
    {
        let commands = Commands { alive, queue: Vec::new() };
        assert(commands@ =~= Seq::<Effect>::empty());
        commands
    }

    /// Whether an entity is there.
    pub fn has_entity(&self, entity: Entity) -> (found: bool)
        ensures
            found == self.alive().contains(entity),
    {
        let mut i: usize = 0;
        while i < self.alive.len()
            invariant
                0 <= i <= self.alive@.len(),
                forall|j: int| 0 <= j < i ==> self.alive@[j] != entity,
            decreases self.alive@.len() - i,
        {
            if self.alive[i] == entity {
                return true;
            }
            i += 1;
        }
        false
    }

    /// Asks for one more change.
    pub fn push(&mut self, action: Action)
        ensures
            final(self).extends(*old(self), seq![action@]),
    {
        self.queue.push(action);
        assert(self@ =~= old(self)@ + seq![action@]);
    }

    /// The changes, in the order in which they were asked for.
    pub fn into_actions(self) -> (actions: Vec<Action>)
        ensures
            actions@.map_values(|action: Action| action@) == self@,
    {
        self.queue
    }
}

/// Attaching a component to an entity that is there.
pub open spec fn inserts(alive: Seq<Entity>, entity: Entity, component: Component) -> Seq<Effect> {
    if alive.contains(entity) {
        seq![Effect::Do(Action::Insert(entity, component))]
    } else {
        Seq::empty()
    }
}

/// Asking for a window to be moved.
pub open spec fn repositions(
    alive: Seq<Entity>,
    entity: Entity,
    x: i64,
    y: i64,
    display_id: DisplayID,
) -> Seq<Effect> {
    inserts(
        alive,
        entity,
        Component::Reposition(RepositionMarker { origin: Point { x, y }, display_id }),
    )
}

/// Asking for a window to be resized.
pub open spec fn resizes(
    alive: Seq<Entity>,
    entity: Entity,
    width: i64,
    height: i64,
    display_id: DisplayID,
) -> Seq<Effect> {
    inserts(
        alive,
        entity,
        Component::Resize(ResizeMarker { size: Size { width, height }, display_id }),
    )
}

/// Asking for the windows around a window to be arranged anew.
pub open spec fn reshuffles(alive: Seq<Entity>, entity: Entity) -> Seq<Effect> {
    inserts(alive, entity, Component::ReshuffleAround(ReshuffleAroundMarker))
}

/// Attaches a component to an entity, if the entity is there.
fn insert(entity: Entity, component: Component, commands: &mut Commands)
    ensures
        final(commands).extends(*old(commands), inserts(old(commands).alive(), entity, component)),
{
    if commands.has_entity(entity) {
        commands.push(Action::Insert(entity, component));
    } else {
        assert(commands@ + Seq::<Effect>::empty() =~= commands@);
    }
}

/// Asks for a window to be moved, if it is there.
pub fn reposition_entity(
    entity: Entity,
    x: i64,
    y: i64,
    display_id: DisplayID,
    commands: &mut Commands,
)
    ensures
        final(commands).extends(
            *old(commands),
            repositions(old(commands).alive(), entity, x, y, display_id),
        ),
{
    let marker = RepositionMarker { origin: Point { x, y }, display_id };
    insert(entity, Component::Reposition(marker), commands);
}

/// Asks for a window to be resized, if it is there.
pub fn resize_entity(
    entity: Entity,
    width: i64,
    height: i64,
    display_id: DisplayID,
    commands: &mut Commands,
)
    ensures
        final(commands).extends(
            *old(commands),
            resizes(old(commands).alive(), entity, width, height, display_id),
        ),
{
    let marker = ResizeMarker { size: Size { width, height }, display_id };
    insert(entity, Component::Resize(marker), commands);
}

/// Asks for the windows around a window to be arranged anew, if it is there.
pub fn reshuffle_around(entity: Entity, commands: &mut Commands)
    ensures
        final(commands).extends(*old(commands), reshuffles(old(commands).alive(), entity)),
{
    insert(entity, Component::ReshuffleAround(ReshuffleAroundMarker), commands);
}

/// A change that is asked for of an entity is asked for exactly as it was meant if the entity is
/// there, and not at all if it is not.
pub proof fn law_only_what_is_there_changes(
    alive: Seq<Entity>,
    entity: Entity,
    a: i64,
    b: i64,
    display_id: DisplayID,
)
    ensures
        alive.contains(entity) ==> {
            &&& repositions(alive, entity, a, b, display_id).len() == 1
            &&& resizes(alive, entity, a, b, display_id).len() == 1
            &&& reshuffles(alive, entity).len() == 1
            &&& repositions(alive, entity, a, b, display_id)[0] matches Effect::Do(
                Action::Insert(moved, Component::Reposition(marker)),
            ) && moved == entity && marker.origin.x == a && marker.origin.y == b
                && marker.display_id == display_id
            &&& resizes(alive, entity, a, b, display_id)[0] matches Effect::Do(
                Action::Insert(resized, Component::Resize(marker)),
            ) && resized == entity && marker.size.width == a && marker.size.height == b
                && marker.display_id == display_id
            &&& reshuffles(alive, entity)[0] matches Effect::Do(
                Action::Insert(shuffled, Component::ReshuffleAround(_)),
            ) && shuffled == entity
        },
        !alive.contains(entity) ==> {
            &&& repositions(alive, entity, a, b, display_id).len() == 0
            &&& resizes(alive, entity, a, b, display_id).len() == 0
            &&& reshuffles(alive, entity).len() == 0
        },
{
}

/// Contracts tell changes apart: two changes that they take for the same are the same, or tell of
/// the same windows.
pub proof fn law_effects_tell_actions_apart(a: Action, b: Action)
    requires
        a@ == b@,
    ensures
        a == b || (a is SpawnWindows && b is SpawnWindows && a->SpawnWindows_0.0@
            == b->SpawnWindows_0.0@),
{
}

/// Asking for more changes keeps those that were asked for, in their order, and the entities that
/// are there.
pub proof fn law_changes_are_kept_in_order(
    before: Commands,
    effects: Seq<Effect>,
    after: Commands,
    i: int,
)
    requires
        after.extends(before, effects),
    ensures
        after.alive() == before.alive(),
        after@.len() == before@.len() + effects.len(),
        0 <= i < before@.len() ==> after@[i] == before@[i],
        0 <= i < effects.len() ==> after@[before@.len() + i] == effects[i],
{
}

} // verus!
