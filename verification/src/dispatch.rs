//! Passing events on to whoever handles them.

use vstd::prelude::*;

#[allow(unused_imports)]
use crate::commands::Effect;
use crate::commands::{Action, Commands, Flow};
use crate::ecs::{CommandTrigger, PollForNotifications, SpawnWindowTrigger, WMEventTrigger};
use crate::events::Event;
#[allow(unused_imports)]
use crate::geometry::least;
use crate::platform::Window;
#[allow(unused_imports)]
use crate::sequences::{gather, lemma_gather_step};

verus! {

/// The longest that the pump waits for an event of the system, in milliseconds, less one step.
pub const PUMP_MAX_TIMEOUT_MS: u32 = 500;

/// By how much an idle pump waits longer each time, and how long it waits after an event.
pub const PUMP_TIMEOUT_STEP: u32 = 1;

/// What waiting for an event came to.
#[derive(Debug)]
pub enum Received {
    /// An event.
    Event(Event),
    /// Nothing came in time.
    TimedOut,
    /// Nothing can come any more.
    Disconnected,
}

/// What an event leads to: a command is passed on as one, a new window is to be made, some events
/// are of no interest, and all others are told to whoever listens.
pub open spec fn dispatches(event: Event) -> Seq<Effect> {
    match event {
        Event::Command { command } => seq![Effect::Do(Action::Command(CommandTrigger(command)))],
        Event::WindowCreated { element } => seq![Effect::Do(Action::CreateWindow(element))],
        Event::WindowTitleChanged { .. } => Seq::empty(),
        Event::MenuClosed { .. } => Seq::empty(),
        Event::DisplayResized { .. } => Seq::empty(),
        Event::DisplayConfigured { .. } => Seq::empty(),
        Event::SystemWoke { .. } => Seq::empty(),
        _ => seq![Effect::Do(Action::Trigger(WMEventTrigger(event)))],
    }
}

/// Passes events on, in order. That a change of the workspace is told shows that notifications
/// arrive, so nothing needs to be polled for any more.
pub fn dispatch_toplevel_triggers(
    messages: Vec<Event>,
    broken_notifications: &mut PollForNotifications,
    commands: &mut Commands,
)
    ensures
        final(commands).extends(*old(commands), gather(messages@, |e: Event| dispatches(e))),
        final(broken_notifications).0 == (old(broken_notifications).0 && !exists|i: int|
            0 <= i < messages@.len() && (#[trigger] messages@[i]) is SpaceChanged),
{
    let ghost all = messages@;
    let ghost f = |e: Event| dispatches(e);
    assert(commands@ + gather(all.take(0), f) =~= commands@);
    for event in it: messages
        invariant
            it.seq() == all,
            f == (|e: Event| dispatches(e)),
            commands.extends(*old(commands), gather(all.take(it.index() as int), f)),
            broken_notifications.0 == (old(broken_notifications).0 && !exists|i: int|
                0 <= i < it.index() && (#[trigger] all[i]) is SpaceChanged),
    {
        let ghost i = it.index() as int;
        proof {
            lemma_gather_step(all, f, i);
            assert(event == all[i]);
        }
        match event {
            Event::Command { command } => {
                commands.push(Action::Command(CommandTrigger(command)));
            },
            Event::WindowCreated { element } => {
                commands.push(Action::CreateWindow(element));
            },
            Event::SpaceChanged => {
                broken_notifications.0 = false;
                commands.push(Action::Trigger(WMEventTrigger(Event::SpaceChanged)));
            },
            Event::WindowTitleChanged { .. } => {},
            Event::MenuClosed { .. } => {},
            Event::DisplayResized { .. } => {},
            Event::DisplayConfigured { .. } => {},
            Event::SystemWoke { .. } => {},
            event => {
                commands.push(Action::Trigger(WMEventTrigger(event)));
            },
        }
        assert(commands@ =~= old(commands)@ + gather(all.take(i + 1), f));
    }
    assert(all.take(all.len() as int) =~= all);
}

/// Tells of a window that was to be made, if it could be.
pub fn window_created(created: Option<Window>, commands: &mut Commands)
    ensures
        final(commands).extends(
            *old(commands),
            match created {
                Some(window) => seq![Effect::SpawnWindows(seq![window])],
                None => Seq::empty(),
            },
        ),
{
    assert(commands@ + Seq::<Effect>::empty() =~= commands@);
    if let Some(window) = created {
        let mut windows: Vec<Window> = Vec::new();
        windows.push(window);
        assert(windows@ =~= seq![window]);
        commands.push(Action::SpawnWindows(SpawnWindowTrigger(windows)));
    }
}

/// Takes in what waiting for an event came to: an event is written to be dispatched, and more are
/// waited for; when none comes in time, or the last one has come, the pump rests. `timeout` is how
/// long it waits for events of the system the next time: the longer, the longer nothing came.
pub fn pump_events(received: Received, timeout: &mut u32, commands: &mut Commands) -> (flow: Flow)
    ensures
        match received {
            Received::Disconnected | Received::Event(Event::Exit) => {
                &&& flow == Flow::Stop
                &&& final(commands).extends(*old(commands), seq![Effect::Do(Action::Exit)])
                &&& *final(timeout) == *old(timeout)
            },
            Received::Event(event) => {
                &&& flow == Flow::Continue
                &&& final(commands).extends(
                    *old(commands),
                    seq![Effect::Do(Action::Write(event))],
                )
                &&& *final(timeout) == PUMP_TIMEOUT_STEP
            },
            Received::TimedOut => {
                &&& flow == Flow::Stop
                &&& *final(commands) == *old(commands)
                &&& *final(timeout) == least(*old(timeout) as int, PUMP_MAX_TIMEOUT_MS as int)
                    + PUMP_TIMEOUT_STEP
            },
        },
{
    match received {
        Received::Disconnected | Received::Event(Event::Exit) => {
            commands.push(Action::Exit);
            Flow::Stop
        },
        Received::Event(event) => {
            commands.push(Action::Write(event));
            *timeout = PUMP_TIMEOUT_STEP;
            Flow::Continue
        },
        Received::TimedOut => {
            let waited: u32 = if *timeout <= PUMP_MAX_TIMEOUT_MS {
                *timeout
            } else {
                PUMP_MAX_TIMEOUT_MS
            };
            *timeout = waited + PUMP_TIMEOUT_STEP;
            Flow::Stop
        },
    }
}

/// How long the pump waits for events of the system after `n` times in which nothing came.
pub open spec fn idle_wait(n: nat) -> int
    decreases n,
{
    if n == 0 {
        PUMP_TIMEOUT_STEP as int
    } else {
        least(idle_wait((n - 1) as nat), PUMP_MAX_TIMEOUT_MS as int) + PUMP_TIMEOUT_STEP
    }
}

/// An idle pump waits a step longer each time, up to its maximum and one step.
pub proof fn law_idle_pump_backs_off(n: nat)
    ensures
        idle_wait(n) == least(PUMP_TIMEOUT_STEP + n, PUMP_MAX_TIMEOUT_MS + PUMP_TIMEOUT_STEP),
    decreases n,
{
    if n > 0 {
        law_idle_pump_backs_off((n - 1) as nat);
    }
}

/// Of every event something is passed on, and it is that event, but for those of no interest: the
/// changed title of a window, a closed menu, a resized or configured display, and that the system
/// woke.
pub proof fn law_nothing_else_is_dropped(event: Event)
    ensures
        dispatches(event).len() == if event is WindowTitleChanged || event is MenuClosed || event
            is DisplayResized || event is DisplayConfigured || event is SystemWoke {
            0int
        } else {
            1
        },
        dispatches(event).len() == 1 ==> {
            ||| event matches Event::Command { command } && dispatches(event)[0] == Effect::Do(
                Action::Command(CommandTrigger(command)),
            )
            ||| event matches Event::WindowCreated { element } && dispatches(event)[0]
                == Effect::Do(Action::CreateWindow(element))
            ||| !(event is Command) && !(event is WindowCreated) && dispatches(event)[0]
                == Effect::Do(Action::Trigger(WMEventTrigger(event)))
        },
{
}

} // verus!
