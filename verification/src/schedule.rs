//! Which rule is applied when.

use vstd::prelude::*;

use crate::ecs::PollForNotifications;

verus! {

/// A part of a frame; they follow one another in this order.
#[derive(Clone, Copy, Debug, PartialEq, Eq, Structural)]
pub enum Schedule {
    PreUpdate,
    Update,
}

/// A rule that is applied in every frame.
#[derive(Clone, Copy, Debug, PartialEq, Eq, Structural)]
pub enum System {
    DispatchToplevelTriggers,
    PumpEvents,
    ReshuffleAroundWindow,
    WindowSwiper,
    AddLaunchedProcess,
    AddLaunchedApplication,
    FreshMarkerCleanup,
    TimeoutTicker,
    RetryStrayFocus,
    FindOrphanedSpaces,
    DisplayChangesWatcher,
    WorkspaceChangeWatcher,
    AnimateWindows,
    AnimateResizeWindows,
}

/// A rule that is applied once, when the window manager starts.
#[derive(Clone, Copy, Debug, PartialEq, Eq, Structural)]
pub enum OneshotSystem {
    AddExistingProcess,
    AddExistingApplication,
    FinishSetup,
}

/// Whoever is told of an event or of a command.
#[derive(Clone, Copy, Debug, PartialEq, Eq, Structural)]
pub enum Observer {
    MouseMoved,
    MouseDown,
    MouseDragged,
    WorkspaceChange,
    DisplayChange,
    ActiveDisplay,
    DisplayAdd,
    DisplayRemove,
    DisplayMoved,
    FrontSwitched,
    CenterMouse,
    WindowFocused,
    SwipeGesture,
    MissionControl,
    ApplicationEvent,
    DispatchApplicationMessages,
    WindowResized,
    WindowDestroyed,
    WindowUnmanaged,
    WindowManaged,
    SpawnWindow,
    RefreshConfiguration,
}

/// When a rule is applied.
#[derive(Clone, Copy, Debug, PartialEq, Eq, Structural)]
pub struct Registration {
    /// In which part of a frame.
    pub schedule: Schedule,
    /// The rule.
    pub system: System,
    /// Only if polling is as this says, or always.
    pub condition: Option<PollForNotifications>,
}

/// The part of a frame in which a rule is applied: events are taken in first, and everything else
/// follows.
pub open spec fn schedule_of(system: System) -> Schedule {
    match system {
        System::PumpEvents => Schedule::PreUpdate,
        _ => Schedule::Update,
    }
}

/// The condition under which a rule is applied: the watchers are needed only while polling.
pub open spec fn condition_of(system: System) -> Option<PollForNotifications> {
    match system {
        System::DisplayChangesWatcher | System::WorkspaceChangeWatcher => Some(
            PollForNotifications(true),
        ),
        _ => None,
    }
}

impl Registration {
    /// Says when its rule is to be applied.
    pub open spec fn fits(self) -> bool {
        self.schedule == schedule_of(self.system) && self.condition == condition_of(self.system)
    }

    /// The rule is applied while polling is as `polling` says.
    pub open spec fn applies(self, polling: PollForNotifications) -> bool {
        self.condition is Some ==> self.condition->0 == polling
    }

    /// Whether the rule is applied while polling is as `polling` says.
    pub fn runs(&self, polling: PollForNotifications) -> (runs: bool)
        ensures
            runs == self.applies(polling),
    {
        match self.condition {
            Some(condition) => condition == polling,
            None => true,
        }
    }
}

/// It is said when a rule is to be applied.
pub open spec fn is_registered(registrations: Seq<Registration>, system: System) -> bool {
    exists|i: int|
        0 <= i < registrations.len() && (#[trigger] registrations[i]).system == system
}

/// Says when one more rule is to be applied.
fn register(
    registrations: &mut Vec<Registration>,
    schedule: Schedule,
    system: System,
    condition: Option<PollForNotifications>,
)
    ensures
        final(registrations)@ == old(registrations)@.push(
            Registration { schedule, system, condition },
        ),
{
    registrations.push(Registration { schedule, system, condition });
}

/// All rules that are applied in every frame, each once.
pub fn register_systems() -> (registrations: Vec<Registration>)
    ensures
        forall|i: int| 0 <= i < registrations@.len() ==> (#[trigger] registrations@[i]).fits(),
        forall|system: System| #[trigger] is_registered(registrations@, system),
        forall|i: int, j: int|
            0 <= i < j < registrations@.len() ==> (#[trigger] registrations@[i]).system != (
            #[trigger] registrations@[j]).system,
{
    let mut r: Vec<Registration> = Vec::new();
    register(&mut r, Schedule::Update, System::DispatchToplevelTriggers, None);
    register(&mut r, Schedule::PreUpdate, System::PumpEvents, None);
    register(&mut r, Schedule::Update, System::ReshuffleAroundWindow, None);
    register(&mut r, Schedule::Update, System::WindowSwiper, None);
    register(&mut r, Schedule::Update, System::AddLaunchedProcess, None);
    register(&mut r, Schedule::Update, System::AddLaunchedApplication, None);
    register(&mut r, Schedule::Update, System::FreshMarkerCleanup, None);
    register(&mut r, Schedule::Update, System::TimeoutTicker, None);
    register(&mut r, Schedule::Update, System::RetryStrayFocus, None);
    register(&mut r, Schedule::Update, System::FindOrphanedSpaces, None);
    let polling = Some(PollForNotifications(true));
    register(&mut r, Schedule::Update, System::DisplayChangesWatcher, polling);
    register(&mut r, Schedule::Update, System::WorkspaceChangeWatcher, polling);
    register(&mut r, Schedule::Update, System::AnimateWindows, None);
    register(&mut r, Schedule::Update, System::AnimateResizeWindows, None);
    proof {
        assert forall|system: System| #[trigger] is_registered(r@, system) by {
            let i: int = match system {
                System::DispatchToplevelTriggers => 0,
                System::PumpEvents => 1,
                System::ReshuffleAroundWindow => 2,
                System::WindowSwiper => 3,
                System::AddLaunchedProcess => 4,
                System::AddLaunchedApplication => 5,
                System::FreshMarkerCleanup => 6,
                System::TimeoutTicker => 7,
                System::RetryStrayFocus => 8,
                System::FindOrphanedSpaces => 9,
                System::DisplayChangesWatcher => 10,
                System::WorkspaceChangeWatcher => 11,
                System::AnimateWindows => 12,
                System::AnimateResizeWindows => 13,
            };
            assert(r@[i].system == system);
        }
    }
    r
}

/// Everyone who is told of events and commands, in the order in which they are registered.
pub open spec fn observers() -> Seq<Observer> {
    seq![
        Observer::MouseMoved,
        Observer::MouseDown,
        Observer::MouseDragged,
        Observer::WorkspaceChange,
        Observer::DisplayChange,
        Observer::ActiveDisplay,
        Observer::DisplayAdd,
        Observer::DisplayRemove,
        Observer::DisplayMoved,
        Observer::FrontSwitched,
        Observer::CenterMouse,
        Observer::WindowFocused,
        Observer::SwipeGesture,
        Observer::MissionControl,
        Observer::ApplicationEvent,
        Observer::DispatchApplicationMessages,
        Observer::WindowResized,
        Observer::WindowDestroyed,
        Observer::WindowUnmanaged,
        Observer::WindowManaged,
        Observer::SpawnWindow,
        Observer::RefreshConfiguration,
    ]
}

/// Everyone who is told of events and commands.
pub fn register_triggers() -> (all: Vec<Observer>)
    ensures
        all@ == observers(),
{
    let all = vec![
        Observer::MouseMoved,
        Observer::MouseDown,
        Observer::MouseDragged,
        Observer::WorkspaceChange,
        Observer::DisplayChange,
        Observer::ActiveDisplay,
        Observer::DisplayAdd,
        Observer::DisplayRemove,
        Observer::DisplayMoved,
        Observer::FrontSwitched,
        Observer::CenterMouse,
        Observer::WindowFocused,
        Observer::SwipeGesture,
        Observer::MissionControl,
        Observer::ApplicationEvent,
        Observer::DispatchApplicationMessages,
        Observer::WindowResized,
        Observer::WindowDestroyed,
        Observer::WindowUnmanaged,
        Observer::WindowManaged,
        Observer::SpawnWindow,
        Observer::RefreshConfiguration,
    ];
    assert(all@ =~= observers());
    all
}

/// The rule that is to be applied next when the window manager starts: `finished` is the one that
/// was applied last, and whether it could be. The first one that cannot be is the last.
pub fn run_initial_oneshot_systems(finished: Option<(OneshotSystem, bool)>) -> (next: Option<
    OneshotSystem,
>)
    ensures
        next == match finished {
            None => Some(OneshotSystem::AddExistingProcess),
            Some((OneshotSystem::AddExistingProcess, true)) => Some(
                OneshotSystem::AddExistingApplication,
            ),
            Some((OneshotSystem::AddExistingApplication, true)) => Some(
                OneshotSystem::FinishSetup,
            ),
            _ => None,
        },
{
    match finished {
        None => Some(OneshotSystem::AddExistingProcess),
        Some((system, succeeded)) => if !succeeded {
            None
        } else {
            match system {
                OneshotSystem::AddExistingProcess => Some(OneshotSystem::AddExistingApplication),
                OneshotSystem::AddExistingApplication => Some(OneshotSystem::FinishSetup),
                OneshotSystem::FinishSetup => None,
            }
        },
    }
}

/// While nothing is polled for, every rule but the two watchers is applied; while something is,
/// every rule is.
pub proof fn law_watchers_only_while_polling(
    registration: Registration,
    polling: PollForNotifications,
)
    requires
        registration.fits(),
    ensures
        registration.applies(polling) == (polling.0 || !(
        registration.system is DisplayChangesWatcher
            || registration.system is WorkspaceChangeWatcher)),
{
}

/// Only taking in the events of the system comes before everything else in a frame.
pub proof fn law_only_the_pump_comes_first(registration: Registration)
    requires
        registration.fits(),
    ensures
        registration.schedule is PreUpdate <==> registration.system is PumpEvents,
        registration.schedule is Update <==> !(registration.system is PumpEvents),
        registration.condition is Some <==> registration.system is DisplayChangesWatcher
            || registration.system is WorkspaceChangeWatcher,
        registration.condition is Some ==> (registration.condition->0).0,
{
}

/// As which one an observer is registered.
pub open spec fn turn_of(observer: Observer) -> int {
    match observer {
        Observer::MouseMoved => 0,
        Observer::MouseDown => 1,
        Observer::MouseDragged => 2,
        Observer::WorkspaceChange => 3,
        Observer::DisplayChange => 4,
        Observer::ActiveDisplay => 5,
        Observer::DisplayAdd => 6,
        Observer::DisplayRemove => 7,
        Observer::DisplayMoved => 8,
        Observer::FrontSwitched => 9,
        Observer::CenterMouse => 10,
        Observer::WindowFocused => 11,
        Observer::SwipeGesture => 12,
        Observer::MissionControl => 13,
        Observer::ApplicationEvent => 14,
        Observer::DispatchApplicationMessages => 15,
        Observer::WindowResized => 16,
        Observer::WindowDestroyed => 17,
        Observer::WindowUnmanaged => 18,
        Observer::WindowManaged => 19,
        Observer::SpawnWindow => 20,
        Observer::RefreshConfiguration => 21,
    }
}

/// Everyone is registered, and each once, in turn.
pub proof fn law_everyone_is_told(observer: Observer, i: int)
    requires
        0 <= i < observers().len(),
    ensures
        observers().len() == 22,
        observers()[turn_of(observer)] == observer,
        turn_of(observers()[i]) == i,
{
}

} // verus!
