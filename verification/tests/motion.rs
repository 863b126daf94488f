use paneru::animate::{animate_resize_windows, animate_windows, MovingWindow, ResizingWindow};
use paneru::commands::{Action, Commands, Component, Flow, Marker};
use paneru::display::Display;
use paneru::ecs::{RepositionMarker, ResizeMarker, WindowSwipeMarker};
use paneru::events::{Config, Event};
use paneru::geometry::{Point, Rect, Size, POINT, WHOLE};
use paneru::pane::WindowPane;
use paneru::swipe::{
    slide_to_next_window, swipe_past_edge, window_swiper, ManagedWindow, SwipeStep, SwipedWindow,
};
use paneru::timeout::Span;

fn point(x: i64, y: i64) -> Point {
    Point { x: x * POINT, y: y * POINT }
}

fn size(width: i64, height: i64) -> Size {
    Size { width: width * POINT, height: height * POINT }
}

fn display() -> Display {
    let bounds = Rect { origin: point(0, 0), size: size(1000, 800) };
    Display::new(3, vec![1], bounds, 20 * POINT)
}

fn config(speed: u64) -> Config {
    Config { animation_speed: speed * WHOLE as u64, continuous_swipe: true }
}

fn tenth() -> Span {
    Span { secs: 0, nanos: 100_000_000 }
}

fn moved(from: Point, to: Point, speed: u64, delta: Span) -> (Point, bool) {
    let window = MovingWindow {
        entity: 5,
        current: from,
        marker: RepositionMarker { origin: to, display_id: 3 },
    };
    let mut commands = Commands::new(vec![]);
    animate_windows(&[window], &[display()], delta, &config(speed), &mut commands);
    let mut actions = commands.into_actions();
    let Some(Action::Reposition(5, origin, bounds)) = actions.pop() else {
        panic!("not moved");
    };
    assert_eq!(bounds, display().bounds);
    let arrived = !actions.is_empty();
    if arrived {
        assert!(matches!(actions[..], [Action::Remove(5, Marker::Reposition)]));
    }
    (origin, arrived)
}

#[test]
fn window_moves_by_at_most_the_limit() {
    // A speed of one display width per second, for a tenth of a second: 100 points.
    assert_eq!(moved(point(0, 100), point(500, 150), 1, tenth()), (point(100, 150), false));
    assert_eq!(moved(point(500, 150), point(0, 100), 1, tenth()), (point(400, 100), false));
    // No more than the limit in both directions: it arrives.
    assert_eq!(moved(point(450, 100), point(500, 150), 1, tenth()), (point(500, 150), true));
    assert_eq!(moved(point(400, 150), point(500, 150), 1, tenth()), (point(500, 150), true));
    assert_eq!(moved(point(400, 50), point(500, 150), 1, tenth()), (point(500, 150), true));
    // More than the limit in one of them: it does not.
    assert_eq!(moved(point(399, 150), point(500, 150), 1, tenth()), (point(499, 150), false));
    assert_eq!(moved(point(500, 251), point(500, 150), 1, tenth()), (point(500, 151), false));
    assert_eq!(moved(point(500, 150), point(500, 150), 1, tenth()), (point(500, 150), true));
}

#[test]
fn limit_is_rounded_up_to_points() {
    // 1000 points in a second, a hundredth of a millisecond: a hundredth of a point.
    let delta = Span { secs: 0, nanos: 10_000 };
    assert_eq!(moved(point(0, 100), point(500, 100), 1, delta), (point(1, 100), false));
    // No time: no way.
    let delta = Span { secs: 0, nanos: 0 };
    assert_eq!(moved(point(0, 100), point(500, 100), 1, delta), (point(0, 100), false));
    // A second and a half.
    let delta = Span { secs: 1, nanos: 500_000_000 };
    assert_eq!(moved(point(0, 100), point(5000, 100), 1, delta), (point(1500, 100), false));
}

#[test]
fn limit_of_a_fast_window_has_no_bound() {
    let from = Point { x: i64::MIN, y: 100 * POINT };
    let to = Point { x: i64::MAX, y: 100 * POINT };
    let delta = Span { secs: u64::MAX, nanos: 999_999_999 };
    assert_eq!(moved(from, to, 1, delta), (to, true));
    assert_eq!(moved(from, to, u64::MAX / WHOLE as u64, delta), (to, true));
    // Without speed there is no way, however long it takes.
    assert_eq!(moved(from, to, 0, delta), (from, false));
}

#[test]
fn limit_takes_the_exact_product() {
    // A third of a second at a speed of three: one display width and a little less.
    let delta = Span { secs: 0, nanos: 333_333_333 };
    assert_eq!(moved(point(0, 100), point(5000, 100), 3, delta), (point(1000, 100), false));
    // A little more than one display width takes a point more.
    let delta = Span { secs: 0, nanos: 333_333_334 };
    assert_eq!(moved(point(0, 100), point(5000, 100), 3, delta), (point(1001, 100), false));
}

#[test]
fn window_stays_below_the_menu_bar() {
    assert_eq!(moved(point(0, 100), point(0, 0), 1, tenth()), (point(0, 20), true));
    assert_eq!(moved(point(0, 110), point(0, 0), 1, tenth()), (point(0, 20), false));
    assert_eq!(moved(point(0, 20), point(0, 0), 1, tenth()), (point(0, 20), true));
}

#[test]
fn window_arrives_in_time() {
    // 100 points a frame: nine frames, and the one that arrives.
    for x in [901, 950, 1000] {
        let (mut at, target) = (point(0, 700), point(x, 40));
        let mut frames = 0;
        loop {
            let (next, arrived) = moved(at, target, 1, tenth());
            at = next;
            frames += 1;
            assert_eq!(arrived, at == target);
            if arrived {
                break;
            }
        }
        assert_eq!(frames, 10);
    }
}

#[test]
fn window_without_display_stays() {
    let window = MovingWindow {
        entity: 5,
        current: point(0, 0),
        marker: RepositionMarker { origin: point(9, 9), display_id: 4 },
    };
    let mut commands = Commands::new(vec![]);
    animate_windows(&[window], &[display()], tenth(), &config(1), &mut commands);
    assert!(commands.into_actions().is_empty());
}

#[test]
fn window_is_resized_step_by_step() {
    let mut window = ResizingWindow {
        entity: 5,
        current: size(400, 900),
        marker: ResizeMarker { size: size(250, 1000), display_id: 3 },
    };
    let mut sizes = vec![];
    loop {
        let mut commands = Commands::new(vec![]);
        animate_resize_windows(&[window], &[display()], tenth(), &config(1), &mut commands);
        let mut actions = commands.into_actions();
        let Some(Action::Resize(5, next, _)) = actions.pop() else {
            panic!("not resized");
        };
        window.current = next;
        sizes.push((next.width / POINT, next.height / POINT));
        if matches!(actions[..], [Action::Remove(5, Marker::Resize)]) {
            break;
        }
    }
    assert_eq!(sizes, vec![(300, 1000), (250, 1000)]);
}

fn swipe(x: i64, fraction: i64, continuous: bool) -> (Vec<Action>, SwipeStep) {
    let window = SwipedWindow {
        entity: 5,
        frame: Rect { origin: point(x, 30), size: size(400, 500) },
        marker: WindowSwipeMarker(fraction),
    };
    let config = Config { animation_speed: 0, continuous_swipe: continuous };
    let mut commands = Commands::new(vec![5]);
    let step = window_swiper(&window, &display(), &config, &mut commands);
    (commands.into_actions(), step)
}

fn target(action: &Action) -> Point {
    match action {
        Action::Insert(5, Component::Reposition(marker)) => {
            assert_eq!(marker.display_id, 3);
            marker.origin
        }
        other => panic!("unexpected {other:?}"),
    }
}

#[test]
fn swipe_follows_the_fingers() {
    // A quarter of the display to the left.
    let (actions, step) = swipe(300, WHOLE / 4, true);
    assert!(matches!(actions[0], Action::Remove(5, Marker::WindowSwipe)));
    assert_eq!(target(&actions[1]), point(50, 30));
    assert!(matches!(actions[2], Action::Insert(5, Component::ReshuffleAround(_))));
    assert_eq!(actions.len(), 3);
    assert_eq!(step, SwipeStep::Stop);
}

#[test]
fn swipe_stops_at_the_edges() {
    let (actions, step) = swipe(100, WHOLE / 4, true);
    assert_eq!(target(&actions[1]), point(0, 30));
    assert_eq!(actions.len(), 2);
    assert_eq!(step, SwipeStep::AtEdge { pos_x: -150 * (POINT * WHOLE) as i128 });

    let (actions, step) = swipe(500, -WHOLE / 4, true);
    assert_eq!(target(&actions[1]), point(600, 30));
    assert_eq!(step, SwipeStep::AtEdge { pos_x: 750 * (POINT * WHOLE) as i128 });

    let (_, step) = swipe(500, -WHOLE / 4, false);
    assert_eq!(step, SwipeStep::Stop);
}

#[test]
fn swipe_tells_the_edges_apart() {
    // By the smallest part over the left edge.
    let (actions, step) = swipe(0, 1, true);
    assert_eq!(target(&actions[1]), point(0, 30));
    assert_eq!(step, SwipeStep::AtEdge { pos_x: -1000 * POINT as i128 });
    // By the smallest part inside it.
    let (actions, step) = swipe(0, -1, true);
    assert_eq!(target(&actions[1]), point(0, 30));
    assert_eq!(step, SwipeStep::Stop);
    assert_eq!(actions.len(), 3);
}

#[test]
fn swipe_goes_on_to_the_next_window() {
    let mut pane = WindowPane::new();
    for entity in [4, 5, 6] {
        pane.append(entity);
    }
    let windows = [ManagedWindow { entity: 6, id: 66 }];

    let mut commands = Commands::new(vec![4, 5, 6]);
    let flow = swipe_past_edge(5, -1, false, Some(&pane), &windows, &mut commands);
    assert_eq!(flow, Flow::Continue);
    let actions = commands.into_actions();
    assert!(matches!(actions[0], Action::Insert(6, Component::ReshuffleAround(_))));
    assert!(matches!(&actions[1], Action::Trigger(trigger)
        if matches!(trigger.0, Event::WindowFocused { window_id: 66 })));

    // To the left there is a window that is not known.
    let mut commands = Commands::new(vec![4, 5, 6]);
    swipe_past_edge(5, 1, false, Some(&pane), &windows, &mut commands);
    let actions = commands.into_actions();
    assert!(matches!(actions[..], [Action::Insert(4, Component::ReshuffleAround(_))]));

    // One has just gone on.
    let mut commands = Commands::new(vec![4, 5, 6]);
    assert_eq!(swipe_past_edge(5, 1, true, Some(&pane), &windows, &mut commands), Flow::Stop);
    assert!(commands.into_actions().is_empty());
}

#[test]
fn no_next_window() {
    let mut pane = WindowPane::new();
    pane.append(5);
    let mut commands = Commands::new(vec![5]);
    assert_eq!(slide_to_next_window(Some(&pane), 5, -1, &mut commands), None);
    assert_eq!(slide_to_next_window(Some(&pane), 5, 1, &mut commands), None);
    assert_eq!(slide_to_next_window(None, 5, 1, &mut commands), None);
    assert!(commands.into_actions().is_empty());
}
