use paneru::animate::{animate_resize_windows, animate_windows, MovingWindow, ResizingWindow};
use paneru::binpack::binpack_heights;
use paneru::commands::{Action, Commands, Component, Flow, Marker};
use paneru::display::Display;
use paneru::ecs::{RepositionMarker, ReshuffleAroundMarker, ResizeMarker};
use paneru::events::{Command, Config, Direction, Event, Operation};
use paneru::geometry::{Point, Rect, Size, POINT, WHOLE};
use paneru::layout::{absolute_positions, calculate_positions, window_size, TiledWindow};
use paneru::pane::{Entity, Panel, WindowPane};
use paneru::reshuffle::{
    reposition_stack, reshuffle_allowed, reshuffle_around_window, reshuffle_begin,
};
use paneru::timeout::Span;

const TEST_DISPLAY_ID: u32 = 1;
const TEST_WORKSPACE_ID: u64 = 2;
const TEST_DISPLAY_WIDTH: i64 = 1024;
const TEST_DISPLAY_HEIGHT: i64 = 768;
const TEST_MENUBAR_HEIGHT: i64 = 20;
const TEST_WINDOW_WIDTH: i64 = 400;
const TEST_WINDOW_HEIGHT: i64 = 1000;

fn points(lengths: &[i64]) -> Vec<i64> {
    lengths.iter().map(|length| length * POINT).collect()
}

fn rect(x: i64, y: i64, width: i64, height: i64) -> Rect {
    Rect {
        origin: Point { x: x * POINT, y: y * POINT },
        size: Size { width: width * POINT, height: height * POINT },
    }
}

fn test_display() -> Display {
    Display::new(
        TEST_DISPLAY_ID,
        vec![TEST_WORKSPACE_ID],
        rect(0, 0, TEST_DISPLAY_WIDTH, TEST_DISPLAY_HEIGHT),
        TEST_MENUBAR_HEIGHT * POINT,
    )
}

fn window(entity: Entity, frame: Rect) -> TiledWindow {
    TiledWindow { entity, frame, moving: None, resizing: None }
}

fn pane(columns: &[&[Entity]]) -> WindowPane {
    let mut pane = WindowPane::new();
    for column in columns {
        if column.len() == 1 {
            pane.append(column[0]);
        } else {
            pane.append_panel(Panel::Stack(column.to_vec()));
        }
    }
    pane
}

#[test]
fn test_binpack() {
    const MIN_HEIGHT: i64 = 100 * POINT;
    let heights = points(&[300, 300, 300, 300]);

    let out = binpack_heights(&heights, MIN_HEIGHT, 1500 * POINT).unwrap();
    assert_eq!(out, points(&[300, 300, 300, 600]));

    let out = binpack_heights(&heights, MIN_HEIGHT, 1024 * POINT).unwrap();
    assert_eq!(out, points(&[300, 300, 300, 124]));

    let out = binpack_heights(&heights, MIN_HEIGHT, 800 * POINT).unwrap();
    assert_eq!(out, points(&[300, 300, 100, 100]));

    let out = binpack_heights(&heights, MIN_HEIGHT, 440 * POINT).unwrap();
    assert_eq!(out, points(&[110, 110, 110, 110]));

    let out = binpack_heights(&heights, MIN_HEIGHT, 390 * POINT);
    assert_eq!(out, None);
}

#[test]
fn binpack_edge_cases() {
    let min = 100 * POINT;
    assert_eq!(binpack_heights(&[], min, 500 * POINT), Some(vec![]));
    // A single window is stretched, or takes what there is.
    assert_eq!(binpack_heights(&points(&[300]), min, 500 * POINT), Some(points(&[500])));
    assert_eq!(binpack_heights(&points(&[300]), min, 200 * POINT), Some(points(&[200])));
    // Not even the first window has room for all.
    assert_eq!(binpack_heights(&points(&[300, 300, 300, 300]), min, 250 * POINT), None);
    // Shares are whole points.
    assert_eq!(
        binpack_heights(&points(&[1000, 1000, 1000]), min, 748 * POINT),
        Some(points(&[249, 249, 249]))
    );
    // Heights that are no whole points are kept.
    let half = POINT / 2;
    assert_eq!(
        binpack_heights(&[300 * POINT + half, 100 * POINT], min, 500 * POINT),
        Some(vec![300 * POINT + half, 199 * POINT + half])
    );
}

#[test]
fn stacks_stay_within_their_height() {
    for total in 200..1600 {
        let heights = points(&[300, 150, 420, 260]);
        if let Some(out) = binpack_heights(&heights, 100 * POINT, total * POINT) {
            assert!(out.iter().sum::<i64>() <= total * POINT);
            for (given, asked) in out.iter().zip(&heights) {
                assert!(*given >= (*asked).min(100 * POINT));
            }
        }
    }
}

#[test]
fn absolute_positions_stand_side_by_side() {
    let windows = vec![
        window(1, rect(0, 0, 100, 10)),
        window(2, rect(0, 0, 200, 10)),
        window(4, rect(0, 0, 400, 10)),
    ];
    // Window 3 is not known and takes no place.
    let pane = pane(&[&[1], &[2], &[3], &[4]]);
    let edges = absolute_positions(&pane, &windows);
    assert_eq!(edges, vec![0, 100 * POINT as i128, 300 * POINT as i128]);
}

#[test]
fn calculated_positions() {
    let windows: Vec<TiledWindow> = (0..5).map(|i| window(i, rect(0, 0, 400, 10))).collect();
    let pane = pane(&[&[0], &[1], &[2], &[3], &[4]]);
    let width = 1024 * POINT;
    let around_last = calculate_positions(4, 624 * POINT, width, &pane, &windows);
    assert_eq!(around_last, Some(points(&[-390, -390, -176, 224, 624])));
    let around_first = calculate_positions(0, 0, width, &pane, &windows);
    assert_eq!(around_first, Some(points(&[0, 400, 800, 1014, 1014])));
    // Arranging again around another window in view changes nothing.
    let again = calculate_positions(2, -176 * POINT, width, &pane, &windows);
    assert_eq!(again, around_last);
    // The window that is arranged around stays in view.
    let off = calculate_positions(0, 2000 * POINT, width, &pane, &windows);
    assert_eq!(off.unwrap()[0], 1014 * POINT);
    assert_eq!(calculate_positions(9, 0, width, &pane, &windows), None);
}

#[test]
fn calculated_positions_with_unknown_windows() {
    // Only two of three columns have a width, so there is no third position to arrange around.
    let windows = vec![window(0, rect(0, 0, 400, 10)), window(2, rect(0, 0, 300, 10))];
    let pane = pane(&[&[0], &[1], &[2]]);
    let width = 1024 * POINT;
    assert_eq!(calculate_positions(2, 0, width, &pane, &windows), None);
    let around_first = calculate_positions(0, 0, width, &pane, &windows);
    assert_eq!(around_first, Some(points(&[0, 400])));
    let around_second = calculate_positions(1, 400 * POINT, width, &pane, &windows);
    assert_eq!(around_second, around_first);
}

fn places(commands: Commands) -> Vec<(Entity, i64)> {
    commands
        .into_actions()
        .into_iter()
        .filter_map(|action| match action {
            Action::Insert(entity, Component::Reposition(marker)) => {
                Some((entity, marker.origin.x / POINT))
            }
            _ => None,
        })
        .collect()
}

#[test]
fn every_column_takes_its_own_place() {
    let display = test_display();
    let windows = vec![
        window(0, rect(0, 0, 400, 500)),
        window(1, rect(0, 0, 200, 500)),
        window(2, rect(0, 0, 300, 500)),
    ];
    let pane = pane(&[&[0], &[1], &[2]]);
    for (around, x) in [(0, 0), (1, 400), (2, 600)] {
        let mut commands = Commands::new(vec![0, 1, 2]);
        let flow =
            reshuffle_around_window(around, x * POINT, &display, &pane, &windows, &mut commands);
        assert_eq!(flow, Flow::Continue);
        assert_eq!(places(commands), vec![(0, 0), (1, 400), (2, 600)]);
    }
}

#[test]
fn columns_take_up_positions_from_the_left() {
    let display = test_display();
    // The second of two positions goes to the column of the unknown window, which stays.
    let windows = vec![window(0, rect(0, 0, 400, 500)), window(2, rect(0, 0, 300, 500))];
    let pane = pane(&[&[0], &[1], &[2]]);
    let mut commands = Commands::new(vec![0, 1, 2]);
    let flow = reshuffle_around_window(0, 0, &display, &pane, &windows, &mut commands);
    assert_eq!(flow, Flow::Continue);
    assert_eq!(places(commands), vec![(0, 0)]);
    let mut commands = Commands::new(vec![0, 1, 2]);
    let flow = reshuffle_around_window(2, 0, &display, &pane, &windows, &mut commands);
    assert_eq!(flow, Flow::Stop);
    assert_eq!(places(commands), vec![]);
}

#[test]
fn stack_without_windows_asks_for_nothing() {
    let mut commands = Commands::new(vec![]);
    reposition_stack(0, &Panel::Stack(vec![]), 1, &test_display(), &[], &mut commands);
    assert!(commands.into_actions().is_empty());
}

#[test]
fn window_size_prefers_what_is_asked_for() {
    let mut tiled = window(7, rect(0, 0, 400, 300));
    assert_eq!(window_size(&[tiled], 7), Some(rect(0, 0, 400, 300).size));
    tiled.resizing = Some(ResizeMarker {
        size: rect(0, 0, 100, 200).size,
        display_id: TEST_DISPLAY_ID,
    });
    assert_eq!(window_size(&[tiled], 7), Some(rect(0, 0, 100, 200).size));
    assert_eq!(window_size(&[tiled], 8), None);
}

#[test]
fn stack_takes_its_places() {
    let display = test_display();
    let windows = vec![window(1, rect(0, 0, 400, 1000)), window(2, rect(0, 0, 400, 1000))];
    let mut commands = Commands::new(vec![1, 2]);
    reposition_stack(
        312 * POINT,
        &Panel::Stack(vec![1, 2]),
        400 * POINT,
        &display,
        &windows,
        &mut commands,
    );
    let mut places = vec![];
    for action in commands.into_actions() {
        match action {
            Action::Insert(entity, Component::Reposition(marker)) => {
                places.push((entity, marker.origin.x / POINT, marker.origin.y / POINT));
            }
            Action::Insert(entity, Component::Resize(marker)) => {
                places.push((entity, marker.size.width / POINT, marker.size.height / POINT));
            }
            other => panic!("unexpected {other:?}"),
        }
    }
    assert_eq!(places, vec![(1, 312, 0), (1, 400, 374), (2, 312, 374), (2, 400, 374)]);
}

#[test]
fn stack_that_does_not_fit_stays() {
    let display = test_display();
    let windows = vec![window(1, rect(0, 0, 400, 1000)); 1];
    let mut commands = Commands::new(vec![1, 2]);
    // Window 2 is not known.
    reposition_stack(0, &Panel::Stack(vec![1, 2]), 1, &display, &windows, &mut commands);
    assert!(commands.into_actions().is_empty());
    // Four windows of at least 200 points do not fit into 748.
    let windows: Vec<TiledWindow> = (0..4).map(|i| window(i, rect(0, 0, 400, 1000))).collect();
    let mut commands = Commands::new(vec![0, 1, 2, 3]);
    reposition_stack(0, &Panel::Stack(vec![0, 1, 2, 3]), 1, &display, &windows, &mut commands);
    assert!(commands.into_actions().is_empty());
}

#[test]
fn entities_that_are_gone_are_not_moved() {
    let display = test_display();
    let windows = vec![window(1, rect(0, 0, 400, 500))];
    let mut commands = Commands::new(vec![]);
    reposition_stack(0, &Panel::Single(1), 400 * POINT, &display, &windows, &mut commands);
    assert!(commands.into_actions().is_empty());
}

#[test]
fn reshuffle_tells_of_another_display() {
    let mut commands = Commands::new(vec![]);
    assert_eq!(reshuffle_allowed(1, Some(1), &mut commands), Flow::Continue);
    assert_eq!(reshuffle_allowed(1, None, &mut commands), Flow::Continue);
    assert_eq!(reshuffle_allowed(1, Some(2), &mut commands), Flow::Stop);
    let actions = commands.into_actions();
    assert_eq!(actions.len(), 1);
    assert!(matches!(&actions[0], Action::Trigger(trigger)
        if matches!(trigger.0, Event::DisplayChanged)));
}

#[test]
fn reshuffle_without_a_place_stops() {
    let display = test_display();
    let windows = vec![window(1, rect(0, 0, 400, 500))];
    let mut commands = Commands::new(vec![1, 5]);
    assert!(!reshuffle_begin(5, &windows, &mut commands));
    assert!(reshuffle_begin(1, &windows, &mut commands));
    let flow = reshuffle_around_window(5, 0, &display, &pane(&[&[1]]), &windows, &mut commands);
    assert_eq!(flow, Flow::Stop);
    let actions = commands.into_actions();
    assert_eq!(actions.len(), 2);
    assert!(matches!(actions[0], Action::Remove(5, Marker::ReshuffleAround)));
    assert!(matches!(actions[1], Action::Remove(1, Marker::ReshuffleAround)));
}

/// Windows on a display that carry out what is asked for.
struct Desk {
    display: Display,
    windows: Vec<TiledWindow>,
    reshuffle: Vec<Entity>,
    focused: Entity,
}

impl Desk {
    fn new() -> Self {
        let mut display = test_display();
        let mut windows = vec![];
        for i in 0..5 {
            let frame = rect(100 * i, 0, TEST_WINDOW_WIDTH, TEST_WINDOW_HEIGHT);
            windows.push(window(i as Entity, frame));
            display.spaces[0].pane.append(i as Entity);
        }
        let mut desk = Desk { display, windows, reshuffle: vec![], focused: 0 };
        desk.arrange_around(0);
        desk
    }

    fn row(&mut self, entity: Entity) -> &mut TiledWindow {
        self.windows.iter_mut().find(|window| window.entity == entity).unwrap()
    }

    fn commands(&self) -> Commands {
        Commands::new(self.windows.iter().map(|window| window.entity).collect())
    }

    fn apply(&mut self, commands: Commands) {
        for action in commands.into_actions() {
            match action {
                Action::Insert(entity, Component::Reposition(marker)) => {
                    self.row(entity).moving = Some(marker);
                }
                Action::Insert(entity, Component::Resize(marker)) => {
                    self.row(entity).resizing = Some(marker);
                }
                Action::Insert(entity, Component::ReshuffleAround(ReshuffleAroundMarker)) => {
                    self.reshuffle.push(entity);
                }
                Action::Remove(entity, Marker::Reposition) => self.row(entity).moving = None,
                Action::Remove(entity, Marker::Resize) => self.row(entity).resizing = None,
                Action::Remove(entity, Marker::ReshuffleAround) => {
                    self.reshuffle.retain(|marked| *marked != entity);
                }
                Action::Reposition(entity, origin, _) => self.row(entity).frame.origin = origin,
                Action::Resize(entity, size, _) => self.row(entity).frame.size = size,
                other => panic!("unexpected {other:?}"),
            }
        }
    }

    /// Where a window is fully in view.
    fn exposed(&self, entity: Entity) -> i64 {
        let window = self.windows.iter().find(|window| window.entity == entity).unwrap();
        let x = window.moving.map_or(window.frame.origin.x, |marker| marker.origin.x);
        x.min(self.display.bounds.size.width - window.frame.size.width).max(0)
    }

    fn update(&mut self) {
        for entity in self.reshuffle.clone() {
            let mut commands = self.commands();
            assert_eq!(
                reshuffle_allowed(self.display.id, Some(TEST_DISPLAY_ID), &mut commands),
                Flow::Continue
            );
            assert!(reshuffle_begin(entity, &self.windows, &mut commands));
            let x = self.exposed(entity);
            let pane = self.display.active_panel(TEST_WORKSPACE_ID).unwrap();
            let flow = reshuffle_around_window(
                entity,
                x,
                &self.display,
                pane,
                &self.windows,
                &mut commands,
            );
            assert_eq!(flow, Flow::Continue);
            self.apply(commands);
        }
        let mut commands = self.commands();
        let config = Config { animation_speed: 12 * WHOLE as u64, continuous_swipe: true };
        let delta = Span { secs: 0, nanos: 100_000_000 };
        let moving: Vec<MovingWindow> = self
            .windows
            .iter()
            .filter_map(|window| {
                window.moving.map(|marker| MovingWindow {
                    entity: window.entity,
                    current: window.frame.origin,
                    marker,
                })
            })
            .collect();
        let resizing: Vec<ResizingWindow> = self
            .windows
            .iter()
            .filter_map(|window| {
                window.resizing.map(|marker| ResizingWindow {
                    entity: window.entity,
                    current: window.frame.size,
                    marker,
                })
            })
            .collect();
        let displays = [test_display()];
        animate_windows(&moving, &displays, delta, &config, &mut commands);
        animate_resize_windows(&resizing, &displays, delta, &config, &mut commands);
        self.apply(commands);
    }

    fn arrange_around(&mut self, entity: Entity) {
        self.reshuffle.push(entity);
        for _ in 0..10 {
            self.update();
        }
    }

    fn command(&mut self, command: Command) {
        let columns: Vec<Vec<Entity>> = {
            let pane = self.display.active_panel(TEST_WORKSPACE_ID).unwrap();
            (0..pane.len()).map(|i| pane.get(i).unwrap().to_windows()).collect()
        };
        let pane = self.display.active_panel(TEST_WORKSPACE_ID).unwrap();
        let Command::Window(operation) = command;
        match operation {
            Operation::Focus(direction) => {
                self.focused = match direction {
                    Direction::First => columns[0][0],
                    Direction::Last => columns[columns.len() - 1][0],
                    Direction::East => pane.right_neighbour(self.focused).unwrap(),
                };
            }
            Operation::Stack(_) => {
                let index = pane.index_of(self.focused).unwrap();
                let mut stacked = columns.clone();
                let column = stacked.remove(index);
                stacked[index - 1].extend(column);
                let stacked: Vec<&[Entity]> = stacked.iter().map(Vec::as_slice).collect();
                self.display.spaces[0].pane = crate::pane(&stacked);
            }
            Operation::Center => {
                let focused = self.focused;
                let width = self.row(focused).frame.size.width;
                let x = (self.display.bounds.size.width - width) / 2;
                let y = self.row(focused).frame.origin.y;
                self.row(focused).moving = Some(RepositionMarker {
                    origin: Point { x, y },
                    display_id: TEST_DISPLAY_ID,
                });
            }
        }
        self.arrange_around(self.focused);
    }

    fn verify_window_positions(&self, expected: &[(Entity, (i64, i64))]) {
        for (entity, (x, y)) in expected {
            let window = self.windows.iter().find(|window| window.entity == *entity).unwrap();
            assert_eq!(*x, window.frame.origin.x / POINT, "window {entity}");
            assert_eq!(*y, window.frame.origin.y / POINT, "window {entity}");
        }
    }
}

#[test]
fn test_window_shuffle() {
    let commands = vec![
        Command::Window(Operation::Focus(Direction::Last)),
        Command::Window(Operation::Focus(Direction::First)),
        Command::Window(Operation::Focus(Direction::East)),
        Command::Window(Operation::Stack(true)),
        Command::Window(Operation::Center),
        Command::Window(Operation::Focus(Direction::East)),
        Command::Window(Operation::Stack(true)),
        Command::Window(Operation::Center),
    ];

    let offscreen_left = 0 - TEST_WINDOW_WIDTH + 10;
    let offscreen_right = TEST_DISPLAY_WIDTH - 10;

    let expected_positions_last = [
        (0, (offscreen_left, TEST_MENUBAR_HEIGHT)),
        (1, (offscreen_left, TEST_MENUBAR_HEIGHT)),
        (2, (-176, TEST_MENUBAR_HEIGHT)),
        (3, (224, TEST_MENUBAR_HEIGHT)),
        (4, (624, TEST_MENUBAR_HEIGHT)),
    ];
    let expected_positions_first = [
        (0, (0, TEST_MENUBAR_HEIGHT)),
        (1, (400, TEST_MENUBAR_HEIGHT)),
        (2, (800, TEST_MENUBAR_HEIGHT)),
        (3, (offscreen_right, TEST_MENUBAR_HEIGHT)),
        (4, (offscreen_right, TEST_MENUBAR_HEIGHT)),
    ];

    let centered = (TEST_DISPLAY_WIDTH - TEST_WINDOW_WIDTH) / 2;
    let expected_positions_stacked = [
        (0, (centered, TEST_MENUBAR_HEIGHT)),
        (1, (centered, 374)),
        (2, (centered + TEST_WINDOW_WIDTH, TEST_MENUBAR_HEIGHT)),
        (3, (offscreen_right, TEST_MENUBAR_HEIGHT)),
        (4, (offscreen_right, TEST_MENUBAR_HEIGHT)),
    ];
    let expected_positions_stacked2 = [
        (0, (centered, TEST_MENUBAR_HEIGHT)),
        (1, (centered, 249)),
        (2, (centered, 498)),
        (3, (712, TEST_MENUBAR_HEIGHT)),
        (4, (offscreen_right, TEST_MENUBAR_HEIGHT)),
    ];
    let iterations = [
        Some(expected_positions_last.as_slice()),
        Some(expected_positions_first.as_slice()),
        None,
        None,
        Some(expected_positions_stacked.as_slice()),
        None,
        None,
        Some(expected_positions_stacked2.as_slice()),
    ];

    let mut desk = Desk::new();
    for (command, expected) in commands.into_iter().zip(iterations) {
        desk.command(command);
        if let Some(positions) = expected {
            desk.verify_window_positions(positions);
        }
    }
}
