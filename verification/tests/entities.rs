use paneru::commands::{Action, Bundle, Commands, Component, Flow, Marker};
use paneru::display::Display;
use paneru::ecs::{ActiveDisplayMarker, BProcess, FreshMarker, OrphanedPane, StrayFocusEvent};
use paneru::events::Event;
use paneru::geometry::{Point, Rect, Size};
use paneru::lifecycle::{
    add_launched_application, add_launched_process, fresh_marker_cleanup, retry_stray_focus,
    timeout_ticker, LaunchEvent, LaunchStep, LaunchedApplication, SeenProcesses, StrayFocus,
    TimedEntity, WaitingEntity,
};
use paneru::orphans::{find_orphaned_spaces, Orphan};
use paneru::pane::{Panel, WindowPane};
use paneru::platform::{Application, Process, ProcessSerialNumber, Window};
use paneru::setup::{
    add_existing_application, add_existing_process, existing_spaces, finish_setup,
    gather_displays, wants_windows,
};
use paneru::timeout::{too_soon, Span, Timeout};
use paneru::watchers::{display_changes_watcher, workspace_change_watcher, KnownDisplay};

fn bounds() -> Rect {
    Rect { origin: Point { x: 0, y: 0 }, size: Size { width: 10, height: 10 } }
}

fn display(id: u32, spaces: &[u64]) -> Display {
    Display::new(id, spaces.to_vec(), bounds(), 0)
}

fn event(action: &Action) -> &Event {
    match action {
        Action::Trigger(trigger) => &trigger.0,
        Action::Write(event) => event,
        other => panic!("unexpected {other:?}"),
    }
}

#[test]
fn displays_are_gathered() {
    let mut commands = Commands::new(vec![]);
    gather_displays(Some(2), vec![display(1, &[]), display(2, &[])], &mut commands);
    let actions = commands.into_actions();
    assert_eq!(actions.len(), 2);
    assert!(matches!(&actions[0], Action::Spawn(Bundle::Display(d, None)) if d.id == 1));
    assert!(matches!(&actions[1], Action::Spawn(Bundle::Display(d, Some(_))) if d.id == 2));

    let mut commands = Commands::new(vec![]);
    gather_displays(None, vec![display(1, &[])], &mut commands);
    assert!(commands.into_actions().is_empty());
}

#[test]
fn workspaces_of_a_display() {
    let display = display(1, &[7, 8, 7]);
    let ids: Vec<u64> = display.spaces.iter().map(|space| space.id).collect();
    assert_eq!(ids, vec![7, 8]);
    assert_eq!(display.space_position(8), Some(1));
    assert!(display.active_panel(7).is_some());
    assert!(display.active_panel(9).is_none());
}

#[test]
fn existing_processes_are_taken_over() {
    let mut commands = Commands::new(vec![]);
    let flow = add_existing_process(4, Some(Application { handle: 9 }), &mut commands);
    assert_eq!(flow, Flow::Continue);
    assert_eq!(add_existing_process(5, None, &mut commands), Flow::Stop);
    let actions = commands.into_actions();
    assert!(matches!(
        &actions[0],
        Action::Spawn(Bundle::ExistingApplication(Application { handle: 9 }, _, 4))
    ));
    assert!(matches!(actions[1], Action::Remove(4, Marker::Existing)));
    assert_eq!(actions.len(), 2);
}

#[test]
fn existing_applications_are_taken_over() {
    assert_eq!(existing_spaces(&[display(1, &[3, 4]), display(2, &[5])]), vec![3, 4, 5]);
    assert!(wants_windows(Some(true)));
    assert!(!wants_windows(Some(false)));
    assert!(!wants_windows(None));

    let mut commands = Commands::new(vec![]);
    add_existing_application(4, Some(vec![Window { id: 1, handle: 2 }]), &mut commands);
    add_existing_application(5, None, &mut commands);
    let actions = commands.into_actions();
    assert!(matches!(&actions[0], Action::SpawnWindows(trigger)
        if trigger.0 == [Window { id: 1, handle: 2 }]));
    assert!(matches!(actions[1], Action::Remove(4, Marker::Existing)));
    assert!(matches!(actions[2], Action::Remove(5, Marker::Existing)));
    assert_eq!(actions.len(), 3);
}

#[test]
fn first_window_gets_the_focus() {
    let mut display = display(1, &[7, 8]);
    display.spaces[1].pane.append_panel(Panel::Stack(vec![21, 22]));
    display.spaces[1].pane.append(23);
    let active = Some(ActiveDisplayMarker);

    let mut commands = Commands::new(vec![]);
    finish_setup(&display, active, Some(8), &mut commands);
    let actions = commands.into_actions();
    assert!(matches!(actions[..], [Action::Insert(21, Component::Focused(_))]));

    let mut commands = Commands::new(vec![]);
    finish_setup(&display, None, Some(8), &mut commands);
    finish_setup(&display, active, Some(7), &mut commands);
    finish_setup(&display, active, Some(9), &mut commands);
    finish_setup(&display, active, None, &mut commands);
    assert!(commands.into_actions().is_empty());
}

#[test]
fn processes_compare_by_both_halves() {
    let a = ProcessSerialNumber { high: 1, low: 2 };
    let b = ProcessSerialNumber { high: 2, low: 1 };
    assert_eq!(a.key(), 0x1_0000_0002);
    let mut seen = SeenProcesses::new();
    assert!(seen.insert(a));
    assert!(seen.insert(b));
    assert!(!seen.insert(a));

    let mut process = BProcess(Process { psn: a, observer: 3 });
    assert_eq!(process.psn, a);
    process.observer = 4;
    assert_eq!(process.0.observer, 4);
}

#[test]
fn launched_process_becomes_an_application() {
    let psn = ProcessSerialNumber { high: 1, low: 2 };
    let application = Application { handle: 8 };
    let mut seen = SeenProcesses::new();
    let mut commands = Commands::new(vec![]);
    let mut step = |event| add_launched_process(event, &mut seen, &mut commands);

    assert_eq!(step(LaunchEvent::Found { psn }), LaunchStep::AskReady);
    let ready = LaunchEvent::Ready { entity: 4, ready: true, has_children: false };
    assert_eq!(step(ready), LaunchStep::CreateApplication);
    assert_eq!(
        step(LaunchEvent::Created { created: Some(application) }),
        LaunchStep::Observe { application }
    );
    let observed = LaunchEvent::Observed {
        entity: 4,
        application,
        observed: Some(true),
        message: Some("slow".to_string()),
    };
    assert_eq!(step(observed), LaunchStep::NextProcess);
    // The same process again.
    assert_eq!(step(LaunchEvent::Found { psn }), LaunchStep::NextProcess);

    let actions = commands.into_actions();
    assert_eq!(actions.len(), 1);
    let Action::Spawn(Bundle::FreshApplication(spawned, FreshMarker, timeout, 4)) = &actions[0]
    else {
        panic!("no application");
    };
    assert_eq!(*spawned, application);
    assert_eq!(timeout.length, Span { secs: 5, nanos: 0 });
    assert_eq!(timeout.elapsed, Span { secs: 0, nanos: 0 });
    assert!(!timeout.finished);
    assert_eq!(timeout.message.as_deref(), Some("slow"));
}

#[test]
fn launched_process_is_passed_over() {
    let application = Application { handle: 8 };
    let mut seen = SeenProcesses::new();
    let mut commands = Commands::new(vec![]);
    let mut step = |event| add_launched_process(event, &mut seen, &mut commands);

    let waiting = LaunchEvent::Ready { entity: 4, ready: false, has_children: true };
    assert_eq!(step(waiting), LaunchStep::NextProcess);
    let done = LaunchEvent::Ready { entity: 4, ready: true, has_children: true };
    assert_eq!(step(done), LaunchStep::NextProcess);
    assert_eq!(step(LaunchEvent::Created { created: None }), LaunchStep::Stop);
    for observed in [Some(false), None] {
        let event = LaunchEvent::Observed { entity: 4, application, observed, message: None };
        assert_eq!(step(event), LaunchStep::NextProcess);
    }
    let actions = commands.into_actions();
    assert!(matches!(actions[..], [Action::Remove(4, Marker::Fresh)]));
}

#[test]
fn launched_application_adds_its_new_windows() {
    let window = |id| Window { id, handle: id as u64 + 100 };
    let applications = [
        LaunchedApplication { entity: 1, windows: None },
        LaunchedApplication {
            entity: 2,
            windows: Some(vec![Some(window(5)), None, Some(window(6)), Some(window(7))]),
        },
        LaunchedApplication { entity: 3, windows: Some(vec![]) },
    ];
    let mut commands = Commands::new(vec![]);
    add_launched_application(&applications, &[6], &mut commands);
    let actions = commands.into_actions();
    assert_eq!(actions.len(), 4);
    assert!(matches!(actions[0], Action::Remove(2, Marker::Fresh)));
    assert!(matches!(&actions[1], Action::SpawnWindows(trigger)
        if trigger.0 == [window(5), window(7)]));
    assert!(matches!(actions[2], Action::Remove(3, Marker::Fresh)));
    assert!(matches!(&actions[3], Action::SpawnWindows(trigger) if trigger.0.is_empty()));
}

#[test]
fn timeouts_of_ready_entities_are_removed() {
    let cleanup = [
        WaitingEntity { entity: 1, fresh: Some(FreshMarker) },
        WaitingEntity { entity: 2, fresh: None },
    ];
    let mut commands = Commands::new(vec![]);
    fresh_marker_cleanup(&cleanup, &mut commands);
    let actions = commands.into_actions();
    assert!(matches!(actions[..], [Action::Remove(2, Marker::Timeout)]));
}

#[test]
fn timer_length_has_single_precision() {
    let timeout = Timeout::new(Span { secs: 0, nanos: 100_000_000 }, None);
    assert_eq!(timeout.length, Span { secs: 0, nanos: 100_000_001 });
    let timeout = Timeout::new(Span::from_secs(16_777_216), None);
    assert_eq!(timeout.length, Span { secs: 16_777_216, nanos: 0 });
    let timeout = Timeout::new(Span::from_secs(16_777_217), None);
    assert_eq!(timeout.length, Span { secs: 16_777_216, nanos: 0 });
    // The longest time that a timer can be set to.
    let timeout = Timeout::new(Span::from_secs(18_446_743_523_953_737_727), None);
    assert_eq!(timeout.length.secs, 18_446_742_974_197_923_840);
}

#[test]
fn timeout_is_over_after_its_length() {
    let mut timeout = Timeout::new(Span::from_secs(5), None);
    timeout.tick(Span { secs: 4, nanos: 600_000_000 });
    assert!(!timeout.is_finished());
    assert_eq!(timeout.elapsed, Span { secs: 4, nanos: 600_000_000 });
    timeout.tick(Span { secs: 0, nanos: 399_999_999 });
    assert!(!timeout.is_finished());
    assert_eq!(timeout.elapsed, Span { secs: 4, nanos: 999_999_999 });
    timeout.tick(Span { secs: 0, nanos: 1 });
    assert!(timeout.is_finished());
    timeout.tick(Span::from_secs(7));
    assert_eq!(timeout.elapsed, Span::from_secs(5));
    // A long wait ends at the length too.
    let mut timeout = Timeout::new(Span::from_secs(5), None);
    timeout.tick(Span { secs: u64::MAX, nanos: 999_999_999 });
    assert!(timeout.is_finished());
    assert_eq!(timeout.elapsed, Span::from_secs(5));
}

#[test]
fn pauses_are_kept() {
    let at = |ms: u64| Span { secs: ms / 1000, nanos: (ms % 1000) as u32 * 1_000_000 };
    let mut last = None;
    let mut done = vec![];
    for ms in (0..3000).step_by(300) {
        if !too_soon(at(ms), &mut last, 500) {
            done.push(ms);
        }
    }
    assert_eq!(done, vec![0, 600, 1200, 1800, 2400]);
    // Exactly the pause is long enough, and a nanosecond less is not.
    let mut last = Some(at(1000));
    assert!(too_soon(Span { secs: 1, nanos: 499_999_999 }, &mut last, 500));
    assert_eq!(last, Some(at(1000)));
    assert!(!too_soon(at(1500), &mut last, 500));
    assert_eq!(last, Some(at(1500)));
    // The longest pause there is.
    let mut last = Some(Span { secs: u64::MAX, nanos: 999_999_999 });
    assert!(too_soon(at(0), &mut last, u64::MAX));
}

#[test]
fn entities_are_given_up_in_time() {
    let mut timers = vec![
        TimedEntity { entity: 1, timeout: Timeout::new(Span::from_secs(5), None) },
        TimedEntity { entity: 2, timeout: Timeout::new(Span::from_secs(2), None) },
    ];
    let mut given_up = vec![];
    for second in 1..=6 {
        let mut commands = Commands::new(vec![]);
        timeout_ticker(&mut timers, Span::from_secs(1), &mut commands);
        for action in commands.into_actions() {
            match action {
                Action::Despawn(entity) => given_up.push((second, entity)),
                other => panic!("unexpected {other:?}"),
            }
        }
        timers.retain(|timed| !given_up.iter().any(|(_, entity)| *entity == timed.entity));
    }
    // Each is removed in the round after its time is over.
    assert_eq!(given_up, vec![(3, 2), (6, 1)]);
}

#[test]
fn stray_focus_comes_again() {
    let stray = [
        StrayFocus { entity: 1, event: StrayFocusEvent(11) },
        StrayFocus { entity: 2, event: StrayFocusEvent(12) },
    ];
    let mut commands = Commands::new(vec![]);
    retry_stray_focus(&stray, &[12, 13], &mut commands);
    let actions = commands.into_actions();
    assert_eq!(actions.len(), 2);
    assert!(matches!(event(&actions[0]), Event::WindowFocused { window_id: 12 }));
    assert!(matches!(actions[1], Action::Despawn(2)));
}

#[test]
fn orphaned_workspaces_come_back() {
    let mut active = display(1, &[7, 8]);
    active.spaces[0].pane.append(40);
    let orphan = |entity, id, columns: Vec<Panel>| {
        let mut pane = WindowPane::new();
        for column in columns {
            pane.append_panel(column);
        }
        Orphan { entity, pane: OrphanedPane { id, pane } }
    };
    let orphans = [
        orphan(1, 7, vec![Panel::Stack(vec![50, 51]), Panel::Single(52)]),
        orphan(2, 9, vec![Panel::Single(60)]),
        orphan(3, 7, vec![Panel::Single(70)]),
    ];
    let mut commands = Commands::new(vec![]);
    find_orphaned_spaces(&orphans, &mut active, &mut commands);
    assert_eq!(active.spaces[0].pane.all_windows(), vec![40, 50, 51, 52, 70]);
    assert_eq!(active.spaces[0].pane.len(), 5);
    assert_eq!(active.spaces[1].pane.len(), 0);
    let actions = commands.into_actions();
    assert!(matches!(actions[..], [Action::Despawn(1), Action::Despawn(3)]));
}

#[test]
fn panes_find_their_windows() {
    let mut pane = WindowPane::new();
    assert_eq!(pane.first_window(), None);
    pane.append(1);
    pane.append_panel(Panel::Stack(vec![2, 3]));
    pane.append(4);
    assert_eq!(pane.all_columns(), vec![1, 2, 4]);
    assert_eq!(pane.all_windows(), vec![1, 2, 3, 4]);
    assert_eq!(pane.index_of(3), Some(1));
    assert_eq!(pane.index_of(5), None);
    assert_eq!(pane.right_neighbour(1), Some(2));
    assert_eq!(pane.right_neighbour(3), Some(4));
    assert_eq!(pane.right_neighbour(4), None);
    assert_eq!(pane.left_neighbour(4), Some(2));
    assert_eq!(pane.left_neighbour(1), None);
    assert_eq!(pane.left_neighbour(5), None);
    assert_eq!(pane.get(0).and_then(Panel::top), Some(1));
    assert!(pane.get(3).is_none());
    assert_eq!(pane.first_window(), Some(1));
    assert_eq!(Panel::Stack(vec![]).top(), None);
}

#[test]
fn empty_stacks_are_passed_over() {
    let mut pane = WindowPane::new();
    for column in [vec![], vec![1], vec![], vec![2, 3], vec![]] {
        pane.append_panel(Panel::Stack(column));
    }
    assert_eq!(pane.len(), 5);
    assert_eq!(pane.all_columns(), vec![1, 2]);
    assert_eq!(pane.first_window(), Some(1));
    assert_eq!(pane.index_of(3), Some(3));
    assert_eq!(pane.right_neighbour(1), Some(2));
    assert_eq!(pane.left_neighbour(3), Some(1));
    assert_eq!(pane.left_neighbour(1), None);
    assert_eq!(pane.right_neighbour(2), None);

    let mut display = display(1, &[7]);
    display.spaces[0].pane = pane;
    let mut commands = Commands::new(vec![]);
    finish_setup(&display, Some(ActiveDisplayMarker), Some(7), &mut commands);
    let actions = commands.into_actions();
    assert!(matches!(actions[..], [Action::Insert(1, Component::Focused(_))]));
}

fn known(ids: &[u32], active: u32) -> Vec<KnownDisplay> {
    ids.iter()
        .map(|id| KnownDisplay {
            id: *id,
            active: (*id == active).then_some(ActiveDisplayMarker),
        })
        .collect()
}

fn watch(displays: &[KnownDisplay], current: Option<u32>, present: &[u32]) -> Vec<Action> {
    let mut commands = Commands::new(vec![]);
    display_changes_watcher(displays, current, present, &mut commands);
    commands.into_actions()
}

#[test]
fn display_changes_are_noticed() {
    let displays = known(&[1, 2], 1);
    // Nothing has changed, or the system does not say.
    assert!(watch(&displays, Some(1), &[2, 1]).is_empty());
    assert!(watch(&displays, None, &[]).is_empty());

    let actions = watch(&displays, Some(2), &[1, 2]);
    assert_eq!(actions.len(), 1);
    assert!(matches!(event(&actions[0]), Event::DisplayChanged));

    let actions = watch(&displays, Some(3), &[2, 3]);
    assert_eq!(actions.len(), 2);
    assert!(matches!(event(&actions[0]), Event::DisplayAdded { display_id: 3 }));
    assert!(matches!(event(&actions[1]), Event::DisplayRemoved { display_id: 1 }));
}

#[test]
fn removed_displays_are_noticed_whichever_is_active() {
    let displays = known(&[1, 2, 3], 1);
    let actions = watch(&displays, Some(1), &[1]);
    assert_eq!(actions.len(), 2);
    assert!(matches!(event(&actions[0]), Event::DisplayRemoved { display_id: 2 }));
    assert!(matches!(event(&actions[1]), Event::DisplayRemoved { display_id: 3 }));
}

#[test]
fn workspace_changes_are_noticed_once() {
    let mut current = 0;
    let mut commands = Commands::new(vec![]);
    workspace_change_watcher(Some(4), &mut current, &mut commands);
    workspace_change_watcher(Some(4), &mut current, &mut commands);
    workspace_change_watcher(None, &mut current, &mut commands);
    assert_eq!(current, 4);
    let actions = commands.into_actions();
    assert_eq!(actions.len(), 1);
    assert!(matches!(event(&actions[0]), Event::SpaceChanged));
}
