//! Processes and applications that come and go.

use std::collections::HashSet;

use vstd::prelude::*;

#[allow(unused_imports)]
use crate::commands::Effect;
use crate::commands::{Action, Bundle, Commands, Marker};
use crate::ecs::{FreshMarker, SpawnWindowTrigger, StrayFocusEvent};
use crate::events::Event;
use crate::pane::Entity;
use crate::platform::{Application, ProcessSerialNumber, WinID, Window};
#[allow(unused_imports)]
use crate::platform::lemma_number_identifies;
#[allow(unused_imports)]
use crate::sequences::{gather, law_gather_appends, lemma_gather_step};
#[allow(unused_imports)]
use crate::timeout::{law_over_after_length, total_of, NANOS_PER_SEC};
use crate::timeout::{Span, Timeout};

verus! {

broadcast use vstd::std_specs::hash::group_hash_axioms;

/// How long a launched application may take to become observable, in seconds.
pub const APP_OBSERVABLE_TIMEOUT_SEC: u64 = 5;

/// The processes that have been looked at already.
pub struct SeenProcesses {
    keys: HashSet<u64>,
}

impl SeenProcesses {
    /// A process has been looked at.
    pub closed spec fn contains(self, psn: ProcessSerialNumber) -> bool {
        self.keys@.contains(psn.number() as u64)
    }

    /// No process has been looked at.
    pub fn new() -> (seen: SeenProcesses)
        ensures
            forall|psn: ProcessSerialNumber| !#[trigger] seen.contains(psn),
    {
        SeenProcesses { keys: HashSet::new() }
    }

    /// Notes that a process is looked at, and says whether that is for the first time.
    pub fn insert(&mut self, psn: ProcessSerialNumber) -> (first: bool)
        ensures
            first == !old(self).contains(psn),
            forall|other: ProcessSerialNumber| #[trigger]
                final(self).contains(other) == (old(self).contains(other) || other == psn),
    {
        let first: bool = self.keys.insert(psn.key());
        proof {
            assert forall|other: ProcessSerialNumber| #[trigger]
                self.contains(other) == (old(self).contains(other) || other == psn) by {
                if other.number() == psn.number() {
                    lemma_number_identifies(other, psn);
                }
            }
        }
        first
    }
}

/// What is found out about a process that has just been launched.
#[derive(Debug)]
pub enum LaunchEvent {
    /// There is one, under this number.
    Found { psn: ProcessSerialNumber },
    /// Whether it is ready, and whether it has an application already.
    Ready { entity: Entity, ready: bool, has_children: bool },
    /// The application that was made of it, if one could be.
    Created { created: Option<Application> },
    /// What trying to observe its application came to, `None` if that failed, and what to say
    /// should the application not become observable in time.
    Observed {
        entity: Entity,
        application: Application,
        observed: Option<bool>,
        message: Option<String>,
    },
}

/// What is to be done next with the processes that have just been launched.
#[derive(Clone, Copy, Debug, PartialEq, Eq, Structural)]
pub enum LaunchStep {
    /// Look at the next process.
    NextProcess,
    /// Ask whether this process is ready.
    AskReady,
    /// Make an application of this process.
    CreateApplication,
    /// Try to observe this application.
    Observe { application: Application },
    /// Look at no further process.
    Stop,
}

/// What is to be done next after `event`, where `seen` says of a process whether it has been
/// looked at before: each process is looked at once; one that is not ready is left for later; one
/// that has an application is done with; and no further process is looked at if an application
/// cannot be made.
pub open spec fn next_step(event: LaunchEvent, seen: SeenProcesses) -> LaunchStep {
    match event {
        LaunchEvent::Found { psn } => if seen.contains(psn) {
            LaunchStep::NextProcess
        } else {
            LaunchStep::AskReady
        },
        LaunchEvent::Ready { ready, has_children, .. } => if ready && !has_children {
            LaunchStep::CreateApplication
        } else {
            LaunchStep::NextProcess
        },
        LaunchEvent::Created { created } => match created {
            Some(application) => LaunchStep::Observe { application },
            None => LaunchStep::Stop,
        },
        LaunchEvent::Observed { .. } => LaunchStep::NextProcess,
    }
}

/// A timeout that has just begun for an application that was launched.
pub open spec fn launch_timeout(message: Option<String>) -> Timeout {
    Timeout {
        length: Span { secs: APP_OBSERVABLE_TIMEOUT_SEC, nanos: 0 },
        elapsed: Span { secs: 0, nanos: 0 },
        finished: false,
        message,
    }
}

/// What `event` leads to: a process that is ready and has an application is no longer fresh, and
/// an application that can be observed becomes the child of its process.
pub open spec fn launches(event: LaunchEvent) -> Seq<Effect> {
    match event {
        LaunchEvent::Ready { entity, ready, has_children } => if ready && has_children {
            seq![Effect::Do(Action::Remove(entity, Marker::Fresh))]
        } else {
            Seq::empty()
        },
        LaunchEvent::Observed { entity, application, observed, message } => if observed == Some(
            true,
        ) {
            seq![
                Effect::Do(
                    Action::Spawn(
                        Bundle::FreshApplication(
                            application,
                            FreshMarker,
                            launch_timeout(message),
                            entity,
                        ),
                    ),
                ),
            ]
        } else {
            Seq::empty()
        },
        _ => Seq::empty(),
    }
}

/// Takes in what was found out about a process that has just been launched, and says what to do
/// next.
pub fn add_launched_process(
    event: LaunchEvent,
    already_seen: &mut SeenProcesses,
    commands: &mut Commands,
) -> (step: LaunchStep)
    ensures
        step == next_step(event, *old(already_seen)),
        final(commands).extends(*old(commands), launches(event)),
        match event {
            LaunchEvent::Found { psn } => forall|other: ProcessSerialNumber| #[trigger]
                final(already_seen).contains(other) == (old(already_seen).contains(other) || other
                    == psn),
            _ => *final(already_seen) == *old(already_seen),
        },
{
    assert(commands@ + Seq::<Effect>::empty() =~= commands@);
    match event {
        LaunchEvent::Found { psn } => if already_seen.insert(psn) {
            LaunchStep::AskReady
        } else {
            LaunchStep::NextProcess
        },
        LaunchEvent::Ready { entity, ready, has_children } => {
            if !ready {
                return LaunchStep::NextProcess;
            }
            if has_children {
                commands.push(Action::Remove(entity, Marker::Fresh));
                return LaunchStep::NextProcess;
            }
            LaunchStep::CreateApplication
        },
        LaunchEvent::Created { created } => match created {
            Some(application) => LaunchStep::Observe { application },
            None => LaunchStep::Stop,
        },
        LaunchEvent::Observed { entity, application, observed, message } => {
            let good: bool = match observed {
                Some(good) => good,
                None => false,
            };
            if good {
                let timeout = Timeout::new(Span::from_secs(APP_OBSERVABLE_TIMEOUT_SEC), message);
                let bundle = Bundle::FreshApplication(application, FreshMarker, timeout, entity);
                commands.push(Action::Spawn(bundle));
            }
            LaunchStep::NextProcess
        },
    }
}

/// An application that has just been launched, and its windows: `None` if they cannot be listed,
/// and in the list `None` for each one that cannot be had.
#[derive(Debug)]
pub struct LaunchedApplication {
    pub entity: Entity,
    pub windows: Option<Vec<Option<Window>>>,
}

/// A listed window that can be had and is not managed yet, as a sequence of at most one item.
pub open spec fn new_window(listed: Option<Window>, managed: Seq<WinID>) -> Seq<Window> {
    match listed {
        Some(window) => if managed.contains(window.id) {
            Seq::empty()
        } else {
            seq![window]
        },
        None => Seq::empty(),
    }
}

/// The listed windows that can be had and are not managed yet.
pub open spec fn new_windows(listed: Seq<Option<Window>>, managed: Seq<WinID>) -> Seq<Window> {
    gather(listed, |window: Option<Window>| new_window(window, managed))
}

/// What an application that has just been launched leads to: if its windows can be listed, it is
/// no longer fresh, and the new ones are told of.
pub open spec fn adds_windows(application: LaunchedApplication, managed: Seq<WinID>) -> Seq<
    Effect,
> {
    match application.windows {
        Some(listed) => seq![
            Effect::Do(Action::Remove(application.entity, Marker::Fresh)),
            Effect::SpawnWindows(new_windows(listed@, managed)),
        ],
        None => Seq::empty(),
    }
}

/// Whether a number is among others.
fn is_managed(managed: &[WinID], id: WinID) -> (found: bool)
    ensures
        found == managed@.contains(id),
{
    let mut i: usize = 0;
    while i < managed.len()
        invariant
            0 <= i <= managed@.len(),
            forall|j: int| 0 <= j < i ==> managed@[j] != id,
        decreases managed@.len() - i,
    {
        if managed[i] == id {
            return true;
        }
        i += 1;
    }
    false
}

/// The listed windows that can be had and are not managed yet.
fn select_new(listed: &[Option<Window>], managed: &[WinID]) -> (windows: Vec<Window>)
    ensures
        windows@ == new_windows(listed@, managed@),
{
    let ghost f = |window: Option<Window>| new_window(window, managed@);
    let mut windows: Vec<Window> = Vec::new();
    let mut i: usize = 0;
    while i < listed.len()
        invariant
            f == (|window: Option<Window>| new_window(window, managed@)),
            0 <= i <= listed@.len(),
            windows@ == gather(listed@.take(i as int), f),
        decreases listed@.len() - i,
    {
        proof {
            lemma_gather_step(listed@, f, i as int);
        }
        if let Some(window) = listed[i] {
            if !is_managed(managed, window.id) {
                windows.push(window);
            }
        }
        i += 1;
        assert(windows@ =~= gather(listed@.take(i as int), f));
    }
    assert(listed@.take(i as int) =~= listed@);
    windows
}

/// Adds the windows of applications that have just been launched, but for those that are managed
/// already. An application whose windows cannot be listed is left for later.
pub fn add_launched_application(
    applications: &[LaunchedApplication],
    managed: &[WinID],
    commands: &mut Commands,
)
    ensures
        final(commands).extends(
            *old(commands),
            gather(applications@, |app: LaunchedApplication| adds_windows(app, managed@)),
        ),
{
    let ghost f = |app: LaunchedApplication| adds_windows(app, managed@);
    let mut i: usize = 0;
    assert(commands@ + gather(applications@.take(0), f) =~= commands@);
    while i < applications.len()
        invariant
            f == (|app: LaunchedApplication| adds_windows(app, managed@)),
            0 <= i <= applications@.len(),
            commands.extends(*old(commands), gather(applications@.take(i as int), f)),
        decreases applications@.len() - i,
    {
        proof {
            lemma_gather_step(applications@, f, i as int);
        }
        let application = &applications[i];
        if let Some(listed) = &application.windows {
            let windows = select_new(listed.as_slice(), managed);
            commands.push(Action::Remove(application.entity, Marker::Fresh));
            commands.push(Action::SpawnWindows(SpawnWindowTrigger(windows)));
        }
        i += 1;
        assert(commands@ =~= old(commands)@ + gather(applications@.take(i as int), f));
    }
    assert(applications@.take(i as int) =~= applications@);
}

/// An entity that has a timeout, with the marker if it is still fresh.
#[derive(Clone, Copy, Debug, PartialEq, Eq, Structural)]
pub struct WaitingEntity {
    pub entity: Entity,
    pub fresh: Option<FreshMarker>,
}

/// Taking the timeout off an entity that is no longer fresh.
pub open spec fn cleans_up(waiting: WaitingEntity) -> Seq<Effect> {
    if waiting.fresh is None {
        seq![Effect::Do(Action::Remove(waiting.entity, Marker::Timeout))]
    } else {
        Seq::empty()
    }
}

/// Takes the timeout off every process and application that was ready in time.
pub fn fresh_marker_cleanup(cleanup: &[WaitingEntity], commands: &mut Commands)
    ensures
        final(commands).extends(
            *old(commands),
            gather(cleanup@, |waiting: WaitingEntity| cleans_up(waiting)),
        ),
{
    let ghost f = |waiting: WaitingEntity| cleans_up(waiting);
    let mut i: usize = 0;
    assert(commands@ + gather(cleanup@.take(0), f) =~= commands@);
    while i < cleanup.len()
        invariant
            f == (|waiting: WaitingEntity| cleans_up(waiting)),
            0 <= i <= cleanup@.len(),
            commands.extends(*old(commands), gather(cleanup@.take(i as int), f)),
        decreases cleanup@.len() - i,
    {
        proof {
            lemma_gather_step(cleanup@, f, i as int);
        }
        if cleanup[i].fresh.is_none() {
            commands.push(Action::Remove(cleanup[i].entity, Marker::Timeout));
        }
        i += 1;
        assert(commands@ =~= old(commands)@ + gather(cleanup@.take(i as int), f));
    }
    assert(cleanup@.take(i as int) =~= cleanup@);
}

/// An entity and its timeout.
#[derive(Debug)]
pub struct TimedEntity {
    pub entity: Entity,
    pub timeout: Timeout,
}

/// Removing an entity whose time is over.
pub open spec fn gives_up(timed: TimedEntity) -> Seq<Effect> {
    if timed.timeout.finished {
        seq![Effect::Do(Action::Despawn(timed.entity))]
    } else {
        Seq::empty()
    }
}

/// Lets `delta` pass for every timeout that is not over, and removes every entity whose timeout
/// is.
pub fn timeout_ticker(timers: &mut Vec<TimedEntity>, delta: Span, commands: &mut Commands)
    requires
        delta.wf(),
        forall|i: int| 0 <= i < old(timers)@.len() ==> (#[trigger] old(timers)@[i]).timeout.wf(),
    ensures
        final(commands).extends(
            *old(commands),
            gather(old(timers)@, |timed: TimedEntity| gives_up(timed)),
        ),
        final(timers)@.len() == old(timers)@.len(),
        forall|i: int|
            0 <= i < old(timers)@.len() ==> {
                let (before, after) = (old(timers)@[i], #[trigger] final(timers)@[i]);
                &&& after.entity == before.entity
                &&& after.timeout.wf()
                &&& before.timeout.ticked(delta, after.timeout)
            },
{
    let ghost all = timers@;
    let ghost f = |timed: TimedEntity| gives_up(timed);
    let mut i: usize = 0;
    assert(commands@ + gather(all.take(0), f) =~= commands@);
    while i < timers.len()
        invariant
            all == old(timers)@,
            f == (|timed: TimedEntity| gives_up(timed)),
            delta.wf(),
            0 <= i <= timers@.len() == all.len(),
            commands.extends(*old(commands), gather(all.take(i as int), f)),
            forall|k: int| 0 <= k < all.len() ==> (#[trigger] all[k]).timeout.wf(),
            forall|k: int|
                0 <= k < i ==> {
                    let (before, after) = (all[k], #[trigger] timers@[k]);
                    &&& after.entity == before.entity
                    &&& after.timeout.wf()
                    &&& before.timeout.ticked(delta, after.timeout)
                },
            forall|k: int| i <= k < all.len() ==> #[trigger] timers@[k] == all[k],
        decreases timers@.len() - i,
    {
        proof {
            lemma_gather_step(all, f, i as int);
            assert(all[i as int].timeout.wf());
        }
        if timers[i].timeout.is_finished() {
            commands.push(Action::Despawn(timers[i].entity));
        } else {
            timers[i].timeout.tick(delta);
        }
        i += 1;
        assert(commands@ =~= old(commands)@ + gather(all.take(i as int), f));
    }
    assert(all.take(i as int) =~= all);
}

/// A focus event that came too early, as an entity has it.
#[derive(Clone, Copy, Debug, PartialEq, Eq, Structural)]
pub struct StrayFocus {
    pub entity: Entity,
    pub event: StrayFocusEvent,
}

/// Letting a focus event come again if its window is there by now.
pub open spec fn retries(stray: StrayFocus, managed: Seq<WinID>) -> Seq<Effect> {
    if managed.contains(stray.event.0) {
        seq![
            Effect::Do(Action::Write(Event::WindowFocused { window_id: stray.event.0 })),
            Effect::Do(Action::Despawn(stray.entity)),
        ]
    } else {
        Seq::empty()
    }
}

/// Lets every focus event that came before its window was there come again, once it is.
pub fn retry_stray_focus(
    focus_events: &[StrayFocus],
    managed: &[WinID],
    commands: &mut Commands,
)
    ensures
        final(commands).extends(
            *old(commands),
            gather(focus_events@, |stray: StrayFocus| retries(stray, managed@)),
        ),
{
    let ghost f = |stray: StrayFocus| retries(stray, managed@);
    let mut i: usize = 0;
    assert(commands@ + gather(focus_events@.take(0), f) =~= commands@);
    while i < focus_events.len()
        invariant
            f == (|stray: StrayFocus| retries(stray, managed@)),
            0 <= i <= focus_events@.len(),
            commands.extends(*old(commands), gather(focus_events@.take(i as int), f)),
        decreases focus_events@.len() - i,
    {
        proof {
            lemma_gather_step(focus_events@, f, i as int);
        }
        let window_id: WinID = focus_events[i].event.0;
        if is_managed(managed, window_id) {
            commands.push(Action::Write(Event::WindowFocused { window_id }));
            commands.push(Action::Despawn(focus_events[i].entity));
        }
        i += 1;
        assert(commands@ =~= old(commands)@ + gather(focus_events@.take(i as int), f));
    }
    assert(focus_events@.take(i as int) =~= focus_events@);
}

/// No window that is managed already is told of as new.
pub proof fn law_no_window_twice(listed: Seq<Option<Window>>, managed: Seq<WinID>, i: int)
    requires
        0 <= i < new_windows(listed, managed).len(),
    ensures
        !managed.contains(new_windows(listed, managed)[i].id),
        listed.contains(Some(new_windows(listed, managed)[i])),
    decreases listed.len(),
{
    if listed.len() > 0 {
        let before = new_windows(listed.drop_last(), managed);
        if i < before.len() {
            law_no_window_twice(listed.drop_last(), managed, i);
            let k = choose|k: int|
                0 <= k < listed.len() - 1 && listed.drop_last()[k] == Some(before[i]);
            assert(listed[k] == Some(before[i]));
        } else {
            assert(listed[listed.len() - 1] == Some(new_windows(listed, managed)[i]));
        }
    }
}

/// Every listed window that can be had and is not managed yet is told of.
pub proof fn law_no_window_missed(listed: Seq<Option<Window>>, managed: Seq<WinID>, window: Window)
    requires
        listed.contains(Some(window)),
        !managed.contains(window.id),
    ensures
        new_windows(listed, managed).contains(window),
    decreases listed.len(),
{
    let k = choose|k: int| 0 <= k < listed.len() && listed[k] == Some(window);
    let before = new_windows(listed.drop_last(), managed);
    let all = new_windows(listed, managed);
    if k == listed.len() - 1 {
        assert(all[before.len() as int] == window);
    } else {
        assert(listed.drop_last()[k] == Some(window));
        law_no_window_missed(listed.drop_last(), managed, window);
        let i = choose|i: int| 0 <= i < before.len() && before[i] == window;
        assert(all[i] == window);
    }
}

/// No process is looked at twice: once it has been found, it is passed over whenever it is found
/// again.
pub proof fn law_process_looked_at_once(
    before: SeenProcesses,
    psn: ProcessSerialNumber,
    after: SeenProcesses,
)
    requires
        forall|other: ProcessSerialNumber| #[trigger]
            after.contains(other) == (before.contains(other) || other == psn),
    ensures
        next_step(LaunchEvent::Found { psn }, after) is NextProcess,
{
}

/// An application that does not become observable is given up: the timeout with which it begins
/// is over exactly when the seconds that it has to become so have passed, and then its entity is
/// removed.
pub proof fn law_launch_given_up(
    message: Option<String>,
    states: Seq<Timeout>,
    deltas: Seq<Span>,
    entity: Entity,
)
    requires
        deltas.len() > 0,
        states.len() == deltas.len() + 1,
        states[0] == launch_timeout(message),
        forall|i: int|
            0 <= i < deltas.len() ==> (#[trigger] states[i]).ticked(deltas[i], states[i + 1]),
    ensures
        gives_up(TimedEntity { entity, timeout: states.last() }) == if total_of(deltas)
            >= APP_OBSERVABLE_TIMEOUT_SEC * NANOS_PER_SEC {
            seq![Effect::Do(Action::Despawn(entity))]
        } else {
            Seq::empty()
        },
{
    law_over_after_length(states, deltas);
}

/// A process is asked whether it is ready only when it is found for the first time; an application
/// is made only of one that is ready and has none; only an application that was made is observed,
/// and that one; and the walk ends only where none could be made.
pub proof fn law_launch_goes_step_by_step(event: LaunchEvent, seen: SeenProcesses)
    ensures
        ({
            let step = next_step(event, seen);
            &&& step is AskReady <==> (event matches LaunchEvent::Found { psn } && !seen.contains(
                psn,
            ))
            &&& step is CreateApplication <==> (event matches LaunchEvent::Ready {
                ready,
                has_children,
                ..
            } && ready && !has_children)
            &&& step is Observe <==> (event matches LaunchEvent::Created { created } && created
                is Some)
            &&& step is Observe ==> Some(step->application) == event->created
            &&& step is Stop <==> (event matches LaunchEvent::Created { created } && created
                is None)
        }),
{
}

/// A launched process changes only if it is ready and has an application, and then it is no longer
/// fresh; or if its application can be observed, and then that becomes its child, with a timeout
/// of five seconds that has just begun.
pub proof fn law_launch_changes(event: LaunchEvent)
    ensures
        launches(event).len() <= 1,
        launches(event).len() == 1 <==> (event matches LaunchEvent::Ready {
            ready,
            has_children,
            ..
        } && ready && has_children) || (event matches LaunchEvent::Observed { observed, .. }
            && observed == Some(true)),
        event matches LaunchEvent::Ready { entity, ready, has_children } ==> ready && has_children
            ==> launches(event)[0] == Effect::Do(Action::Remove(entity, Marker::Fresh)),
        event matches LaunchEvent::Observed { entity, application, observed, message } ==> observed
            == Some(true) ==> {
            launches(event)[0] matches Effect::Do(
                Action::Spawn(Bundle::FreshApplication(app, _, timeout, parent)),
            ) && app == application && parent == entity && timeout.message == message
                && !timeout.finished && timeout.length.secs == 5 && timeout.length.nanos == 0
                && timeout.elapsed.secs == 0 && timeout.elapsed.nanos == 0
        },
{
}

/// One more listed window is told of behind the others, if it can be had and is not managed.
pub proof fn law_new_window_is_told_behind(
    listed: Seq<Option<Window>>,
    window: Option<Window>,
    managed: Seq<WinID>,
)
    ensures
        new_windows(Seq::empty(), managed) == Seq::<Window>::empty(),
        new_windows(listed.push(window), managed) == if window is Some && !managed.contains(
            window->0.id,
        ) {
            new_windows(listed, managed).push(window->0)
        } else {
            new_windows(listed, managed)
        },
{
    law_gather_appends(listed, |window: Option<Window>| new_window(window, managed), window);
    let before = new_windows(listed, managed);
    assert(before + Seq::<Window>::empty() =~= before);
    assert(window is Some ==> before + seq![window->0] =~= before.push(window->0));
}

/// An application whose windows can be listed is no longer fresh, and its new windows are told of;
/// one whose windows cannot be listed stays as it is.
pub proof fn law_listed_application_is_done(app: LaunchedApplication, managed: Seq<WinID>)
    ensures
        app.windows is None ==> adds_windows(app, managed).len() == 0,
        app.windows is Some ==> {
            &&& adds_windows(app, managed).len() == 2
            &&& adds_windows(app, managed)[0] == Effect::Do(
                Action::Remove(app.entity, Marker::Fresh),
            )
            &&& adds_windows(app, managed)[1] == Effect::SpawnWindows(
                new_windows(app.windows->0@, managed),
            )
        },
{
}

/// An entity keeps its timeout exactly as long as it is fresh; an entity is removed exactly when
/// its timeout is over; and a focus event comes again, once, exactly when its window is managed.
pub proof fn law_waiting_ends(
    waiting: WaitingEntity,
    timed: TimedEntity,
    stray: StrayFocus,
    managed: Seq<WinID>,
)
    ensures
        waiting.fresh is Some ==> cleans_up(waiting).len() == 0,
        waiting.fresh is None ==> cleans_up(waiting) == seq![
            Effect::Do(Action::Remove(waiting.entity, Marker::Timeout)),
        ],
        !timed.timeout.finished ==> gives_up(timed).len() == 0,
        timed.timeout.finished ==> gives_up(timed) == seq![
            Effect::Do(Action::Despawn(timed.entity)),
        ],
        !managed.contains(stray.event.0) ==> retries(stray, managed).len() == 0,
        managed.contains(stray.event.0) ==> retries(stray, managed) == seq![
            Effect::Do(Action::Write(Event::WindowFocused { window_id: stray.event.0 })),
            Effect::Do(Action::Despawn(stray.entity)),
        ],
{
}

} // verus!
