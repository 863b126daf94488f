use paneru::commands::{Action, Bundle, Commands, Flow};
use paneru::dispatch::{dispatch_toplevel_triggers, pump_events, window_created, Received};
use paneru::ecs::{BProcess, PollForNotifications};
use paneru::events::{Command, Config, Event, Operation};
use paneru::handler::{EventHandler, InitialState};
use paneru::platform::{Process, ProcessSerialNumber, Window};
use paneru::schedule::{
    register_systems, register_triggers, run_initial_oneshot_systems, Observer, OneshotSystem,
    Schedule, System,
};
use paneru::startup::{
    launch, LaunchTask, Paneru, PlatformCallbacks, SetupError, SetupTask, SubCmd,
};

fn config(speed: u64) -> Config {
    Config { animation_speed: speed, continuous_swipe: false }
}

#[test]
fn events_are_dispatched() {
    let messages = vec![
        Event::Command { command: Command::Window(Operation::Center) },
        Event::WindowCreated { element: 77 },
        Event::WindowTitleChanged { window_id: 1 },
        Event::MenuClosed { window_id: 1 },
        Event::DisplayResized { display_id: 1 },
        Event::DisplayConfigured { display_id: 1 },
        Event::SystemWoke { msg: "awake".to_string() },
        Event::MenuOpened { window_id: 5 },
    ];
    let mut polling = PollForNotifications(true);
    let mut commands = Commands::new(vec![]);
    dispatch_toplevel_triggers(messages, &mut polling, &mut commands);
    assert!(polling.0);
    let actions = commands.into_actions();
    assert_eq!(actions.len(), 3);
    assert!(matches!(&actions[0], Action::Command(trigger)
        if trigger.0 == Command::Window(Operation::Center)));
    assert!(matches!(actions[1], Action::CreateWindow(77)));
    assert!(matches!(&actions[2], Action::Trigger(trigger)
        if matches!(trigger.0, Event::MenuOpened { window_id: 5 })));
}

#[test]
fn space_change_ends_the_polling() {
    for before in [true, false] {
        let mut polling = PollForNotifications(before);
        let mut commands = Commands::new(vec![]);
        let messages = vec![Event::SpaceCreated, Event::SpaceChanged, Event::SpaceDestroyed];
        dispatch_toplevel_triggers(messages, &mut polling, &mut commands);
        assert!(!polling.0);
        assert_eq!(commands.into_actions().len(), 3);
    }
}

#[test]
fn file_system_events_are_passed_on() {
    let change = notify::Event::new(notify::EventKind::Any).set_info("settings");
    let mut commands = Commands::new(vec![]);
    let mut polling = PollForNotifications(false);
    dispatch_toplevel_triggers(vec![Event::ConfigRefresh(change)], &mut polling, &mut commands);
    let actions = commands.into_actions();
    assert!(matches!(&actions[0], Action::Trigger(trigger)
        if matches!(&trigger.0, Event::ConfigRefresh(change) if change.info() == Some("settings"))));
}

#[test]
fn created_windows_are_told_of() {
    let mut commands = Commands::new(vec![]);
    window_created(None, &mut commands);
    window_created(Some(Window { id: 3, handle: 4 }), &mut commands);
    let actions = commands.into_actions();
    assert_eq!(actions.len(), 1);
    assert!(matches!(&actions[0], Action::SpawnWindows(trigger)
        if trigger.0 == [Window { id: 3, handle: 4 }]));
}

#[test]
fn pump_takes_events_in() {
    let mut timeout = 100;
    let mut commands = Commands::new(vec![]);
    let received = Received::Event(Event::SpaceCreated);
    assert_eq!(pump_events(received, &mut timeout, &mut commands), Flow::Continue);
    assert_eq!(timeout, 1);
    assert_eq!(pump_events(Received::TimedOut, &mut timeout, &mut commands), Flow::Stop);
    assert_eq!(timeout, 2);
    let received = Received::Event(Event::Exit);
    assert_eq!(pump_events(received, &mut timeout, &mut commands), Flow::Stop);
    assert_eq!(pump_events(Received::Disconnected, &mut timeout, &mut commands), Flow::Stop);
    assert_eq!(timeout, 2);
    let actions = commands.into_actions();
    assert_eq!(actions.len(), 3);
    assert!(matches!(actions[0], Action::Write(Event::SpaceCreated)));
    assert!(matches!(actions[1], Action::Exit));
    assert!(matches!(actions[2], Action::Exit));
}

#[test]
fn idle_pump_backs_off() {
    let mut timeout = 1;
    for n in 1..=600u32 {
        let mut commands = Commands::new(vec![]);
        pump_events(Received::TimedOut, &mut timeout, &mut commands);
        assert_eq!(timeout, (1 + n).min(501));
    }
}

#[test]
fn main_loop_takes_events_in() {
    let mut commands = Commands::new(vec![]);
    let received = Received::Event(Event::DisplayChanged);
    assert_eq!(EventHandler::custom_loop(received, 700, &mut commands), 1);
    assert_eq!(EventHandler::custom_loop(Received::TimedOut, 700, &mut commands), 701);
    assert_eq!(EventHandler::custom_loop(Received::TimedOut, 5000, &mut commands), 5001);
    assert_eq!(EventHandler::custom_loop(Received::TimedOut, 5001, &mut commands), 5001);
    assert_eq!(EventHandler::custom_loop(Received::TimedOut, u64::MAX, &mut commands), 5001);
    let received = Received::Event(Event::Exit);
    assert_eq!(EventHandler::custom_loop(received, 700, &mut commands), 700);
    let actions = commands.into_actions();
    assert_eq!(actions.len(), 2);
    assert!(matches!(actions[0], Action::Write(Event::DisplayChanged)));
    assert!(matches!(actions[1], Action::Exit));
}

#[test]
fn main_loop_starts_with_polling() {
    let resources = EventHandler::resources();
    assert!(!resources.skip_reshuffle.0);
    assert!(!resources.mission_control_active.0);
    assert_eq!(resources.focus_follows_mouse.0, None);
    assert!(resources.poll_for_notifications.0);
}

#[test]
fn initial_state_is_gathered() {
    let psn = |low| ProcessSerialNumber { high: 0, low };
    let mut state = InitialState { processes: vec![], config: None };
    let events = vec![
        Event::ApplicationLaunched { psn: psn(1), observer: 10 },
        Event::InitialConfig(config(1)),
        Event::SpaceChanged,
        Event::ApplicationLaunched { psn: psn(2), observer: 20 },
        Event::InitialConfig(config(2)),
    ];
    for event in events {
        assert_eq!(EventHandler::gather_initial_processes(event, &mut state), Flow::Continue);
    }
    for event in [Event::ProcessesLoaded, Event::Exit] {
        assert_eq!(EventHandler::gather_initial_processes(event, &mut state), Flow::Stop);
    }
    assert_eq!(state.config, Some(config(2)));
    assert_eq!(
        state.processes,
        vec![
            BProcess(Process { psn: psn(1), observer: 10 }),
            BProcess(Process { psn: psn(2), observer: 20 }),
        ]
    );
}

#[test]
fn observable_processes_are_set_up() {
    let process = |low| {
        BProcess(Process { psn: ProcessSerialNumber { high: 0, low }, observer: 0 })
    };
    let mut commands = Commands::new(vec![]);
    EventHandler::initial_setup(
        vec![process(1), process(2), process(3)],
        &[true, false, true],
        Some(config(4)),
        &mut commands,
    );
    let actions = commands.into_actions();
    assert_eq!(actions.len(), 3);
    assert!(matches!(actions[0], Action::Configure(kept) if kept == config(4)));
    assert!(matches!(actions[1], Action::Spawn(Bundle::ExistingProcess(_, p)) if p == process(3)));
    assert!(matches!(actions[2], Action::Spawn(Bundle::ExistingProcess(_, p)) if p == process(1)));
}

#[test]
fn systems_are_registered() {
    let all = register_systems();
    assert_eq!(all.len(), 14);
    let find = |system| *all.iter().find(|r| r.system == system).unwrap();
    assert_eq!(find(System::PumpEvents).schedule, Schedule::PreUpdate);
    assert_eq!(find(System::DispatchToplevelTriggers).schedule, Schedule::Update);
    assert_eq!(find(System::WindowSwiper).schedule, Schedule::Update);
    assert_eq!(find(System::AnimateWindows).schedule, Schedule::Update);
    assert_eq!(find(System::AnimateResizeWindows).schedule, Schedule::Update);
    for (polling, expected) in [(true, 14), (false, 12)] {
        let polling = PollForNotifications(polling);
        assert_eq!(all.iter().filter(|r| r.runs(polling)).count(), expected);
    }
    assert!(!find(System::DisplayChangesWatcher).runs(PollForNotifications(false)));
    assert!(!find(System::WorkspaceChangeWatcher).runs(PollForNotifications(false)));
}

#[test]
fn triggers_are_registered() {
    let all = register_triggers();
    assert_eq!(all.len(), 22);
    assert_eq!(all[0], Observer::MouseMoved);
    assert_eq!(all[21], Observer::RefreshConfiguration);
}

#[test]
fn initial_systems_run_until_one_fails() {
    let mut finished = None;
    let mut order = vec![];
    while let Some(system) = run_initial_oneshot_systems(finished) {
        order.push(system);
        finished = Some((system, true));
    }
    assert_eq!(
        order,
        vec![
            OneshotSystem::AddExistingProcess,
            OneshotSystem::AddExistingApplication,
            OneshotSystem::FinishSetup,
        ]
    );
    for system in order {
        assert_eq!(run_initial_oneshot_systems(Some((system, false))), None);
    }
}

#[test]
fn command_line_defaults_to_launch() {
    assert!(matches!(Paneru::default().task(), SubCmd::Launch));
    assert!(matches!(SubCmd::default(), SubCmd::Launch));
    let send = SubCmd::SendCmd { cmd: vec!["window".to_string(), "focus".to_string()] };
    let SubCmd::SendCmd { cmd } = (Paneru { subcmd: Some(send) }).task() else {
        panic!("another task");
    };
    assert_eq!(cmd, vec!["window", "focus"]);
}

#[test]
fn launch_runs_task_by_task() {
    let mut done = None;
    let mut order = vec![];
    while let Some(task) = launch(done).unwrap() {
        order.push(task);
        done = Some((task, true));
    }
    assert_eq!(
        order,
        vec![
            LaunchTask::RunEventHandler,
            LaunchTask::StartCommandReader,
            LaunchTask::CreateCallbacks,
            LaunchTask::SetupHandlers,
            LaunchTask::RunCallbacks,
            LaunchTask::JoinEventHandler,
        ]
    );
    for task in [LaunchTask::CreateCallbacks, LaunchTask::SetupHandlers] {
        assert_eq!(launch(Some((task, false))), Err(task));
    }
}

#[test]
fn handlers_are_set_up_in_order() {
    let mut done = None;
    let mut order = vec![];
    while let Some(task) = PlatformCallbacks::setup_handlers(done).unwrap() {
        order.push(task);
        done = Some((task, true));
    }
    assert_eq!(
        order,
        vec![
            SetupTask::CheckAccessibility,
            SetupTask::CheckSeparateSpaces,
            SetupTask::StartInput,
            SetupTask::StartDisplay,
            SetupTask::ObserveMissionControl,
            SetupTask::StartWorkspace,
            SetupTask::StartProcess,
            SetupTask::SendProcessesLoaded,
        ]
    );
}

#[test]
fn handlers_that_cannot_be_set_up() {
    let failed = |task| PlatformCallbacks::setup_handlers(Some((task, false))).unwrap_err();
    let SetupError::PermissionDenied(message) = failed(SetupTask::CheckAccessibility) else {
        panic!("another error");
    };
    assert_eq!(
        message,
        "Accessibility permissions are required. Please enable them in System Preferences -> Security & Privacy -> Privacy -> Accessibility."
    );
    let SetupError::InvalidConfig(message) = failed(SetupTask::CheckSeparateSpaces) else {
        panic!("another error");
    };
    assert_eq!(message, "Option 'display has separate spaces' disabled.");
    for task in [
        SetupTask::StartInput,
        SetupTask::StartDisplay,
        SetupTask::ObserveMissionControl,
        SetupTask::StartProcess,
        SetupTask::SendProcessesLoaded,
    ] {
        assert!(matches!(failed(task), SetupError::Failed(failed) if failed == task));
    }
}

#[test]
fn callbacks_are_served_until_the_end() {
    assert!(PlatformCallbacks::run(false).is_none());
    assert!(matches!(PlatformCallbacks::run(true), Some(Event::Exit)));
}
