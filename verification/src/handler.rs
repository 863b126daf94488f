//! The main loop, and what happens before it starts.

use vstd::prelude::*;

#[allow(unused_imports)]
use crate::commands::Effect;
use crate::commands::{Action, Bundle, Commands, Flow};
use crate::dispatch::Received;
use crate::ecs::{
    BProcess, ExistingMarker, FocusFollowsMouse, MissionControlActive, PollForNotifications,
    SkipReshuffle,
};
use crate::events::{Config, Event};
#[allow(unused_imports)]
use crate::geometry::least;
use crate::platform::Process;
#[allow(unused_imports)]
use crate::sequences::{gather, gather_below};

verus! {

/// The longest that the main loop waits for an event, in milliseconds, less one step.
pub const LOOP_MAX_TIMEOUT_MS: u64 = 5000;

/// By how much an idle main loop waits longer each time, and how long it waits after an event.
pub const LOOP_TIMEOUT_STEP: u64 = 1;

/// The state that the window manager keeps once for everything.
#[derive(Clone, Copy, Debug, PartialEq, Eq, Structural)]
pub struct Resources {
    pub skip_reshuffle: SkipReshuffle,
    pub mission_control_active: MissionControlActive,
    pub focus_follows_mouse: FocusFollowsMouse,
    pub poll_for_notifications: PollForNotifications,
}

/// What is gathered before the main loop starts.
#[derive(Debug)]
pub struct InitialState {
    /// The processes that run already, in the order in which they were found.
    pub processes: Vec<BProcess>,
    /// The configuration.
    pub config: Option<Config>,
}

/// Sets up and runs the main loop.
pub struct EventHandler;

/// How long the main loop waits after it has waited `timeout` in vain.
pub open spec fn next_timeout(timeout: u64) -> int {
    least(timeout as int, LOOP_MAX_TIMEOUT_MS as int) + LOOP_TIMEOUT_STEP
}

/// The process that an event says is there, as a sequence of at most one item.
pub open spec fn launched(event: Event) -> Seq<BProcess> {
    match event {
        Event::ApplicationLaunched { psn, observer } => seq![BProcess(Process { psn, observer })],
        _ => Seq::empty(),
    }
}

/// The configuration that events announce last.
pub open spec fn announced(events: Seq<Event>) -> Option<Config>
    decreases events.len(),
{
    if events.len() == 0 {
        None
    } else {
        match events.last() {
            Event::InitialConfig(config) => Some(config),
            _ => announced(events.drop_last()),
        }
    }
}

/// `after` is what is gathered once `event` has come on top of `before`.
pub open spec fn absorbs(before: InitialState, event: Event, after: InitialState) -> bool {
    &&& after.processes@ == before.processes@ + launched(event)
    &&& after.config == match event {
        Event::InitialConfig(config) => Some(config),
        _ => before.config,
    }
}

/// An event ends the gathering.
pub open spec fn ends_gathering(event: Event) -> bool {
    event is ProcessesLoaded || event is Exit
}

/// Spawning process `i` of `existing`, counted from the last one, if it can be observed.
pub open spec fn spawns_existing(existing: Seq<BProcess>, observable: Seq<bool>, i: int) -> Seq<
    Effect,
> {
    let at = existing.len() - 1 - i;
    if observable[at] {
        seq![Effect::Do(Action::Spawn(Bundle::ExistingProcess(ExistingMarker, existing[at])))]
    } else {
        Seq::empty()
    }
}

/// Keeping the configuration, if there is one.
pub open spec fn configures(config: Option<Config>) -> Seq<Effect> {
    match config {
        Some(config) => seq![Effect::Do(Action::Configure(config))],
        None => Seq::empty(),
    }
}

impl EventHandler {
    /// The state with which the main loop starts.
    pub fn resources() -> (resources: Resources)
        ensures
            !resources.skip_reshuffle.0,
            !resources.mission_control_active.0,
            resources.focus_follows_mouse.0 is None,
            resources.poll_for_notifications.0,
    {
        Resources {
            skip_reshuffle: SkipReshuffle(false),
            mission_control_active: MissionControlActive(false),
            focus_follows_mouse: FocusFollowsMouse(None),
            poll_for_notifications: PollForNotifications(true),
        }
    }

    /// Takes in what waiting for an event came to in one round of the main loop, which has waited
    /// for `timeout` milliseconds, and says how long to wait in the next round.
    pub fn custom_loop(received: Received, timeout: u64, commands: &mut Commands) -> (next: u64)
        requires
            !(received is Disconnected),
        ensures
            match received {
                Received::Event(Event::Exit) => {
                    &&& final(commands).extends(*old(commands), seq![Effect::Do(Action::Exit)])
                    &&& next == timeout
                },
                Received::Event(event) => {
                    &&& final(commands).extends(
                        *old(commands),
                        seq![Effect::Do(Action::Write(event))],
                    )
                    &&& next == LOOP_TIMEOUT_STEP
                },
                _ => {
                    &&& *final(commands) == *old(commands)
                    &&& next == next_timeout(timeout)
                },
            },
    {
        match received {
            Received::Event(Event::Exit) => {
                commands.push(Action::Exit);
                timeout
            },
            Received::Event(event) => {
                commands.push(Action::Write(event));
                LOOP_TIMEOUT_STEP
            },
            _ => {
                let waited: u64 = if timeout <= LOOP_MAX_TIMEOUT_MS {
                    timeout
                } else {
                    LOOP_MAX_TIMEOUT_MS
                };
                waited + LOOP_TIMEOUT_STEP
            },
        }
    }

    /// Takes in an event that came before the main loop started: a process, the configuration, or
    /// the end of the gathering. Other events are dropped.
    pub fn gather_initial_processes(event: Event, state: &mut InitialState) -> (flow: Flow)
        ensures
            flow == if ends_gathering(event) {
                Flow::Stop
            } else {
                Flow::Continue
            },
            absorbs(*old(state), event, *final(state)),
    {
        assert(state.processes@ + Seq::<BProcess>::empty() =~= state.processes@);
        match event {
            Event::ProcessesLoaded => Flow::Stop,
            Event::Exit => Flow::Stop,
            Event::ApplicationLaunched { psn, observer } => {
                state.processes.push(BProcess(Process { psn, observer }));
                assert(state.processes@ =~= old(state).processes@ + launched(event));
                Flow::Continue
            },
            Event::InitialConfig(config) => {
                state.config = Some(config);
                Flow::Continue
            },
            _ => Flow::Continue,
        }
    }

    /// Sets up what is there when the main loop starts: the configuration, and the processes that
    /// can be observed, from the last one gathered to the first.
    pub fn initial_setup(
        existing_processes: Vec<BProcess>,
        observable: &[bool],
        config: Option<Config>,
        commands: &mut Commands,
    )
        requires
            observable@.len() == existing_processes@.len(),
        ensures
            final(commands).extends(
                *old(commands),
                configures(config) + gather_below(
                    existing_processes@.len() as int,
                    |i: int| spawns_existing(existing_processes@, observable@, i),
                ),
            ),
    {
        let mut existing_processes = existing_processes;
        let ghost all = existing_processes@;
        let ghost f = |i: int| spawns_existing(all, observable@, i);
        if let Some(config) = config {
            commands.push(Action::Configure(config));
        }
        let ghost n = all.len() as int;
        assert(commands@ =~= old(commands)@ + (configures(config) + gather_below(0, f)));
        loop
            invariant
                n == all.len() == observable@.len(),
                existing_processes@.len() <= n,
                existing_processes@ == all.take(existing_processes@.len() as int),
                f == (|i: int| spawns_existing(all, observable@, i)),
                commands.extends(
                    *old(commands),
                    configures(config) + gather_below(n - existing_processes@.len(), f),
                ),
            ensures
                existing_processes@.len() == 0,
            decreases existing_processes@.len(),
        {
            match existing_processes.pop() {
                None => {
                    break ;
                },
                Some(process) => {
                    let i: usize = existing_processes.len();
                    assert(process == all[i as int]);
                    assert(existing_processes@ =~= all.take(i as int));
                    if observable[i] {
                        commands.push(
                            Action::Spawn(Bundle::ExistingProcess(ExistingMarker, process)),
                        );
                    }
                    assert(commands@ =~= old(commands)@ + (configures(config) + gather_below(
                        n - i,
                        f,
                    )));
                },
            }
        }
    }
}

/// What has been gathered after `events` is every process that they say was launched, in order,
/// and the configuration that they announce last.
pub proof fn law_gathers_everything(events: Seq<Event>, states: Seq<InitialState>)
    requires
        states.len() == events.len() + 1,
        states[0].processes@.len() == 0,
        states[0].config is None,
        forall|i: int|
            0 <= i < events.len() ==> absorbs(#[trigger] states[i], events[i], states[i + 1]),
    ensures
        states.last().processes@ == gather(events, |event: Event| launched(event)),
        states.last().config == announced(events),
    decreases events.len(),
{
    if events.len() > 0 {
        let n = events.len() - 1;
        let (before, rest) = (states.drop_last(), events.drop_last());
        assert forall|i: int| 0 <= i < rest.len() implies absorbs(
            #[trigger] before[i],
            rest[i],
            before[i + 1],
        ) by {
            assert(absorbs(states[i], events[i], states[i + 1]));
        }
        law_gathers_everything(rest, before);
        assert(absorbs(states[n], events[n], states[n + 1]));
    } else {
        assert(states.last().processes@ =~= Seq::<BProcess>::empty());
    }
}

/// How long the main loop waits after `n` rounds in which nothing came.
pub open spec fn idle_timeout(n: nat) -> int
    decreases n,
{
    if n == 0 {
        LOOP_TIMEOUT_STEP as int
    } else {
        least(idle_timeout((n - 1) as nat), LOOP_MAX_TIMEOUT_MS as int) + LOOP_TIMEOUT_STEP
    }
}

/// An idle main loop waits a step longer each round, up to its maximum and one step.
pub proof fn law_idle_loop_backs_off(n: nat)
    ensures
        idle_timeout(n) == least(
            LOOP_TIMEOUT_STEP + n,
            LOOP_MAX_TIMEOUT_MS + LOOP_TIMEOUT_STEP,
        ),
    decreases n,
{
    if n > 0 {
        law_idle_loop_backs_off((n - 1) as nat);
    }
}

/// However long the main loop has waited, the next round waits at least one step and at most its
/// maximum and one step.
pub proof fn law_timeout_bounded(timeout: u64)
    ensures
        LOOP_TIMEOUT_STEP <= next_timeout(timeout) <= LOOP_MAX_TIMEOUT_MS + LOOP_TIMEOUT_STEP,
{
}

/// A main loop that waits in vain waits one millisecond longer the next time, but never longer
/// than five seconds and one millisecond.
pub proof fn law_wait_grows(timeout: u64)
    ensures
        timeout <= 5000 ==> next_timeout(timeout) == timeout + 1,
        timeout > 5000 ==> next_timeout(timeout) == 5001,
{
}

/// An event that says that an application was launched adds its process behind the others, and no
/// other event adds one; an event that announces a configuration replaces it, and no other does;
/// and only the end of loading and the end of everything end the gathering.
pub proof fn law_gathering_takes_in(before: InitialState, event: Event, after: InitialState)
    requires
        absorbs(before, event, after),
    ensures
        event matches Event::ApplicationLaunched { psn, observer } ==> {
            &&& after.processes@.len() == before.processes@.len() + 1
            &&& after.processes@.last().0.psn == psn
            &&& after.processes@.last().0.observer == observer
            &&& after.processes@.drop_last() == before.processes@
        },
        !(event is ApplicationLaunched) ==> after.processes@ == before.processes@,
        event matches Event::InitialConfig(config) ==> after.config == Some(config),
        !(event is InitialConfig) ==> after.config == before.config,
        ends_gathering(event) <==> event is ProcessesLoaded || event is Exit,
{
    if event is ApplicationLaunched {
        assert(after.processes@.drop_last() =~= before.processes@);
    } else {
        assert(after.processes@ =~= before.processes@);
    }
}

/// A process is set up if and only if it can be observed; the last one comes first; and a
/// configuration is kept as it is.
pub proof fn law_observable_processes_are_set_up(
    existing: Seq<BProcess>,
    observable: Seq<bool>,
    i: int,
    config: Config,
)
    requires
        0 <= i < existing.len() == observable.len(),
    ensures
        ({
            let made = spawns_existing(existing, observable, existing.len() - 1 - i);
            &&& made.len() == if observable[i] {
                1int
            } else {
                0
            }
            &&& observable[i] ==> (made[0] matches Effect::Do(
                Action::Spawn(Bundle::ExistingProcess(_, process)),
            ) && process == existing[i])
        }),
        configures(None) == Seq::<Effect>::empty(),
        configures(Some(config)) == seq![Effect::Do(Action::Configure(config))],
{
}

} // verus!
