//! Moving and resizing windows frame by frame.

use vstd::prelude::*;

use crate::commands::{Action, Commands, Marker};
#[allow(unused_imports)]
use crate::commands::Effect;
use crate::display::Display;
use crate::ecs::{RepositionMarker, ResizeMarker};
use crate::events::Config;
#[allow(unused_imports)]
use crate::geometry::{ceil_points, distance, greatest, law_ceil_points, least};
use crate::geometry::{floor_div, Point, Size, POINT};
use crate::pane::Entity;
use crate::platform::DisplayID;
#[allow(unused_imports)]
use crate::sequences::{find_where, gather, law_find_where, lemma_first_where, lemma_gather_step};
use crate::timeout::Span;

verus! {

/// How many units a product of a speed, nanoseconds and a length has to the point.
pub const TRAVEL_POINT: i128 = 281_474_976_710_656_000_000_000;

/// No two coordinates are this far apart.
const FAR: i128 = 0x1_0000_0000_0000_0000;

/// A product of a speed, nanoseconds and a length that is larger than this is further than
/// [`FAR`].
const FAR_PRODUCT: u128 = 0x4000_0000_0000_0000_0000_0000_0000_0000;

/// A window on its way: where it is and where it is to go.
#[derive(Clone, Copy, Debug, PartialEq, Eq, Structural)]
pub struct MovingWindow {
    pub entity: Entity,
    pub current: Point,
    pub marker: RepositionMarker,
}

/// A window that changes its size: how large it is and how large it is to be.
#[derive(Clone, Copy, Debug, PartialEq, Eq, Structural)]
pub struct ResizingWindow {
    pub entity: Entity,
    pub current: Size,
    pub marker: ResizeMarker,
}

/// A coordinate that has come closer to `to` by at most `limit`.
pub open spec fn travel(from: int, to: int, limit: int) -> int {
    let step = least(distance(from, to), limit);
    if to < from {
        from - step
    } else {
        from + step
    }
}

/// Both coordinates are so close to where they are to be that they come there in one frame.
pub open spec fn arrives(
    from_x: int,
    to_x: int,
    from_y: int,
    to_y: int,
    limit: int,
) -> bool {
    distance(from_x, to_x) <= limit && distance(from_y, to_y) <= limit
}

/// How far a window may come in `delta` on a display, at a speed in display widths per second:
/// speed times time times width, rounded up to whole points.
pub open spec fn frame_limit(display: Display, animation_speed: u64, delta: Span) -> int {
    ceil_points(
        animation_speed * delta.total() * display.bounds.size.width,
        TRAVEL_POINT as int,
    )
}

/// Where a window is one frame later; never above the menu bar.
pub open spec fn next_origin(current: Point, target: Point, limit: int, menubar: int) -> (
    int,
    int,
) {
    (
        travel(current.x as int, target.x as int, limit),
        greatest(travel(current.y as int, target.y as int, limit), menubar),
    )
}

/// How large a window is one frame later.
pub open spec fn next_size(current: Size, target: Size, limit: int) -> (int, int) {
    (
        travel(current.width as int, target.width as int, limit),
        travel(current.height as int, target.height as int, limit),
    )
}

/// The display with a number.
pub open spec fn display_with(displays: Seq<Display>, id: DisplayID) -> Option<Display> {
    find_where(displays, |display: Display| display.id == id)
}

/// One frame of a window on its way. A window that comes to where it is to be is no longer asked
/// to move; one whose display is not there stays where it is.
pub open spec fn moves(window: MovingWindow, displays: Seq<Display>, config: Config, delta: Span) -> Seq<
    Effect,
> {
    match display_with(displays, window.marker.display_id) {
        None => Seq::empty(),
        Some(display) => {
            let limit = frame_limit(display, config.animation_speed, delta);
            let (from, to) = (window.current, window.marker.origin);
            let next = next_origin(from, to, limit, display.menubar_height as int);
            let arrived = if arrives(
                from.x as int,
                to.x as int,
                from.y as int,
                to.y as int,
                limit,
            ) {
                seq![Effect::Do(Action::Remove(window.entity, Marker::Reposition))]
            } else {
                Seq::empty()
            };
            arrived + seq![
                Effect::Do(
                    Action::Reposition(
                        window.entity,
                        Point { x: next.0 as i64, y: next.1 as i64 },
                        display.bounds,
                    ),
                ),
            ]
        },
    }
}

/// One frame of a window that changes its size. A window that gets the size that it is to have is
/// no longer asked to change; one whose display is not there stays as it is.
pub open spec fn grows(window: ResizingWindow, displays: Seq<Display>, config: Config, delta: Span) -> Seq<
    Effect,
> {
    match display_with(displays, window.marker.display_id) {
        None => Seq::empty(),
        Some(display) => {
            let limit = frame_limit(display, config.animation_speed, delta);
            let (from, to) = (window.current, window.marker.size);
            let next = next_size(from, to, limit);
            let arrived = if arrives(
                from.width as int,
                to.width as int,
                from.height as int,
                to.height as int,
                limit,
            ) {
                seq![Effect::Do(Action::Remove(window.entity, Marker::Resize))]
            } else {
                Seq::empty()
            };
            arrived + seq![
                Effect::Do(
                    Action::Resize(
                        window.entity,
                        Size { width: next.0 as i64, height: next.1 as i64 },
                        display.bounds,
                    ),
                ),
            ]
        },
    }
}

/// The position of the display with a number.
fn find_display(displays: &[Display], id: DisplayID) -> (index: Option<usize>)
    ensures
        match index {
            Some(index) => index < displays@.len() && display_with(displays@, id) == Some(
                displays@[index as int],
            ),
            None => display_with(displays@, id) is None,
        },
{
    let ghost p = |display: Display| display.id == id;
    let mut i: usize = 0;
    while i < displays.len()
        invariant
            0 <= i <= displays@.len(),
            p == (|display: Display| display.id == id),
            forall|j: int| 0 <= j < i ==> !p(#[trigger] displays@[j]),
        decreases displays@.len() - i,
    {
        if displays[i].id == id {
            proof {
                lemma_first_where(displays@, p, 0, i as int);
            }
            return Some(i);
        }
        i += 1;
    }
    proof {
        lemma_first_where(displays@, p, 0, displays@.len() as int);
    }
    None
}

/// How far apart two coordinates are.
fn gap(a: i64, b: i64) -> (d: i128)
    ensures
        d == distance(a as int, b as int),
{
    if a >= b {
        a as i128 - b as i128
    } else {
        b as i128 - a as i128
    }
}

/// A coordinate one frame later.
fn advance(from: i64, to: i64, limit: i128) -> (next: i64)
    requires
        limit >= 0,
    ensures
        next == travel(from as int, to as int, limit as int),
{
    let d: i128 = gap(from, to);
    let step: i128 = if d <= limit {
        d
    } else {
        limit
    };
    if to < from {
        (from as i128 - step) as i64
    } else {
        (from as i128 + step) as i64
    }
}

/// A product of a number of at most 126 bits and another number, if it has at most 126 bits.
fn product(a: u128, b: u128) -> (p: Option<u128>)
    requires
        a <= FAR_PRODUCT,
    ensures
        match p {
            Some(p) => p == a * b && p <= FAR_PRODUCT,
            None => a * b > FAR_PRODUCT,
        },
{
    if b == 0 {
        assert(a * b == 0) by (nonlinear_arith)
            requires
                b == 0,
        ;
        return Some(0);
    }
    let most: u128 = FAR_PRODUCT / b;
    proof {
        let (x, y, m, f) = (a as int, b as int, most as int, FAR_PRODUCT as int);
        assert(x <= m ==> 0 <= x * y <= f) by (nonlinear_arith)
            requires
                y > 0,
                x >= 0,
                m == f / y,
        ;
        assert(x > m ==> x * y > f) by (nonlinear_arith)
            requires
                y > 0,
                m == f / y,
        ;
    }
    if a <= most {
        Some(a * b)
    } else {
        None
    }
}

/// How far a window may come in one frame on a display, but no more than [`FAR`].
fn limit_on(display: &Display, config: &Config, delta: Span) -> (limit: i128)
    requires
        display.wf(),
        delta.wf(),
    ensures
        limit == least(
            frame_limit(*display, config.animation_speed, delta),
            FAR as int,
        ),
        limit >= 0,
{
    let nanos: u128 = delta.secs as u128 * 1_000_000_000 + delta.nanos as u128;
    let width: u128 = display.bounds.size.width as u128;
    let ghost (s, t, w): (int, int, int) = (
        config.animation_speed as int,
        delta.total(),
        width as int,
    );
    assert(nanos == t);
    let widths: u128 = match product(config.animation_speed as u128, nanos) {
        Some(widths) => widths,
        None => {
            if width == 0 {
                assert(s * t * w == 0) by (nonlinear_arith)
                    requires
                        w == 0,
                ;
                return 0;
            }
            assert(s * t * w >= s * t) by (nonlinear_arith)
                requires
                    w > 0,
                    s * t >= 0,
            ;
            return FAR;
        },
    };
    match product(widths, width) {
        Some(travelled) => {
            let points: i128 = -floor_div(-(travelled as i128), TRAVEL_POINT);
            assert(0 <= points <= 0x2_0000_0000_0000);
            assert(0 <= points * POINT <= 0x2_0000_0000_0000 * 65_536) by (nonlinear_arith)
                requires
                    0 <= points <= 0x2_0000_0000_0000,
                    POINT == 65_536,
            ;
            let limit: i128 = points * POINT as i128;
            if limit < FAR {
                limit
            } else {
                FAR
            }
        },
        None => FAR,
    }
}

/// Moves windows one frame further to where they are to go: each by at most what the speed of the
/// animation allows in `delta`, on its display, rounded up to whole points.
pub fn animate_windows(
    windows: &[MovingWindow],
    displays: &[Display],
    delta: Span,
    config: &Config,
    commands: &mut Commands,
)
    requires
        delta.wf(),
        forall|i: int| 0 <= i < displays@.len() ==> (#[trigger] displays@[i]).wf(),
    ensures
        final(commands).extends(
            *old(commands),
            gather(
                windows@,
                |window: MovingWindow| moves(window, displays@, *config, delta),
            ),
        ),
{
    let ghost f = |window: MovingWindow| moves(window, displays@, *config, delta);
    let mut i: usize = 0;
    assert(commands@ + gather(windows@.take(0), f) =~= commands@);
    while i < windows.len()
        invariant
            delta.wf(),
            forall|i: int| 0 <= i < displays@.len() ==> (#[trigger] displays@[i]).wf(),
            f == (|window: MovingWindow| moves(window, displays@, *config, delta)),
            0 <= i <= windows@.len(),
            commands.extends(*old(commands), gather(windows@.take(i as int), f)),
        decreases windows@.len() - i,
    {
        proof {
            lemma_gather_step(windows@, f, i as int);
        }
        let window: MovingWindow = windows[i];
        let target: Point = window.marker.origin;
        let current: Point = window.current;
        if let Some(index) = find_display(displays, window.marker.display_id) {
            let display = &displays[index];
            let limit: i128 = limit_on(display, config, delta);
            if gap(current.x, target.x) <= limit && gap(current.y, target.y) <= limit {
                commands.push(Action::Remove(window.entity, Marker::Reposition));
            }
            let x: i64 = advance(current.x, target.x, limit);
            let mut y: i64 = advance(current.y, target.y, limit);
            if y < display.menubar_height {
                y = display.menubar_height;
            }
            commands.push(Action::Reposition(window.entity, Point { x, y }, display.bounds));
        }
        i += 1;
        assert(commands@ =~= old(commands)@ + gather(windows@.take(i as int), f));
    }
    assert(windows@.take(i as int) =~= windows@);
}

/// Brings windows one frame closer to the size that they are to have: each side by at most what
/// the speed of the animation allows in `delta`, on its display, rounded up to whole points.
pub fn animate_resize_windows(
    windows: &[ResizingWindow],
    displays: &[Display],
    delta: Span,
    config: &Config,
    commands: &mut Commands,
)
    requires
        delta.wf(),
        forall|i: int| 0 <= i < displays@.len() ==> (#[trigger] displays@[i]).wf(),
    ensures
        final(commands).extends(
            *old(commands),
            gather(
                windows@,
                |window: ResizingWindow| grows(window, displays@, *config, delta),
            ),
        ),
{
    let ghost f = |window: ResizingWindow| grows(window, displays@, *config, delta);
    let mut i: usize = 0;
    assert(commands@ + gather(windows@.take(0), f) =~= commands@);
    while i < windows.len()
        invariant
            delta.wf(),
            forall|i: int| 0 <= i < displays@.len() ==> (#[trigger] displays@[i]).wf(),
            f == (|window: ResizingWindow| grows(window, displays@, *config, delta)),
            0 <= i <= windows@.len(),
            commands.extends(*old(commands), gather(windows@.take(i as int), f)),
        decreases windows@.len() - i,
    {
        proof {
            lemma_gather_step(windows@, f, i as int);
        }
        let window: ResizingWindow = windows[i];
        let target: Size = window.marker.size;
        let current: Size = window.current;
        if let Some(index) = find_display(displays, window.marker.display_id) {
            let display = &displays[index];
            let limit: i128 = limit_on(display, config, delta);
            if gap(current.width, target.width) <= limit && gap(current.height, target.height)
                <= limit {
                commands.push(Action::Remove(window.entity, Marker::Resize));
            }
            let width: i64 = advance(current.width, target.width, limit);
            let height: i64 = advance(current.height, target.height, limit);
            commands.push(Action::Resize(window.entity, Size { width, height }, display.bounds));
        }
        i += 1;
        assert(commands@ =~= old(commands)@ + gather(windows@.take(i as int), f));
    }
    assert(windows@.take(i as int) =~= windows@);
}

/// A coordinate after `n` frames.
pub open spec fn travelled(from: int, to: int, limit: int, n: nat) -> int
    decreases n,
{
    if n == 0 {
        from
    } else {
        travel(travelled(from, to, limit, (n - 1) as nat), to, limit)
    }
}

/// A coordinate that never comes below `floor`, after `n` frames.
pub open spec fn travelled_above(from: int, to: int, limit: int, floor: int, n: nat) -> int
    decreases n,
{
    if n == 0 {
        from
    } else {
        greatest(travel(travelled_above(from, to, limit, floor, (n - 1) as nat), to, limit), floor)
    }
}

/// Windows do not overshoot: a frame brings a coordinate closer by exactly what it may come, or
/// to where it is to be, and never to the other side.
pub proof fn law_no_overshoot(from: int, to: int, limit: int)
    requires
        limit >= 0,
    ensures
        distance(travel(from, to, limit), to) == distance(from, to) - least(
            distance(from, to),
            limit,
        ),
        least(from, to) <= travel(from, to, limit) <= greatest(from, to),
{
}

/// While time passes, every window gets on: at any speed, on any display that has a width, a frame
/// allows for at least one point.
pub proof fn law_frame_allows_a_point(display: Display, animation_speed: u64, delta: Span)
    requires
        animation_speed > 0,
        delta.total() > 0,
        display.bounds.size.width > 0,
    ensures
        frame_limit(display, animation_speed, delta) >= POINT,
{
    let (s, t, w) = (animation_speed as int, delta.total(), display.bounds.size.width as int);
    assert(s * t * w > 0) by (nonlinear_arith)
        requires
            s > 0,
            t > 0,
            w > 0,
    ;
    let points = -(-(s * t * w) / TRAVEL_POINT as int);
    assert(points * POINT >= POINT) by (nonlinear_arith)
        requires
            points >= 1,
            POINT == 65_536,
    ;
}

proof fn lemma_travelled(from: int, to: int, limit: int, n: nat)
    requires
        limit >= 0,
    ensures
        distance(travelled(from, to, limit, n), to) == greatest(0, distance(from, to) - n * limit),
    decreases n,
{
    assert(n == 0 ==> n * limit == 0) by (nonlinear_arith);
    if n > 0 {
        lemma_travelled(from, to, limit, (n - 1) as nat);
        assert(n * limit == (n - 1) * limit + limit) by (nonlinear_arith);
        assert((n - 1) * limit >= 0) by (nonlinear_arith)
            requires
                n > 0,
                limit >= 0,
        ;
    }
}

proof fn lemma_travelled_above(from: int, to: int, limit: int, floor: int, n: nat)
    requires
        limit >= 0,
    ensures
        distance(travelled_above(from, to, limit, floor, n), to) <= greatest(
            greatest(0, floor - to),
            distance(from, to) - n * limit,
        ),
    decreases n,
{
    assert(n == 0 ==> n * limit == 0) by (nonlinear_arith);
    if n > 0 {
        lemma_travelled_above(from, to, limit, floor, (n - 1) as nat);
        assert(n * limit == (n - 1) * limit + limit) by (nonlinear_arith);
    }
}

/// How many frames pass before the one in which a coordinate comes to where it is to be, if it is
/// `far` away and may come `limit` in one.
pub open spec fn frames_before(far: int, limit: int) -> int {
    if far <= limit {
        0
    } else {
        (far - 1) / limit
    }
}

proof fn lemma_frames_suffice(far: int, limit: int)
    requires
        limit > 0,
        far >= 0,
    ensures
        frames_before(far, limit) >= 0,
        far - frames_before(far, limit) * limit <= limit,
{
    let d = far - 1;
    assert(far > limit ==> d / limit >= 0 && d - (d / limit) * limit < limit) by (nonlinear_arith)
        requires
            limit > 0,
            d == far - 1,
    ;
}

/// Where a window is after `n` frames.
pub open spec fn origin_after(
    current: Point,
    target: Point,
    limit: int,
    menubar: i64,
    n: nat,
) -> Point
    decreases n,
{
    if n == 0 {
        current
    } else {
        let before = origin_after(current, target, limit, menubar, (n - 1) as nat);
        let next = next_origin(before, target, limit, menubar as int);
        Point { x: next.0 as i64, y: next.1 as i64 }
    }
}

/// How large a window is after `n` frames.
pub open spec fn size_after(current: Size, target: Size, limit: int, n: nat) -> Size
    decreases n,
{
    if n == 0 {
        current
    } else {
        let before = size_after(current, target, limit, (n - 1) as nat);
        let next = next_size(before, target, limit);
        Size { width: next.0 as i64, height: next.1 as i64 }
    }
}

proof fn lemma_origin_after(current: Point, target: Point, limit: int, menubar: i64, n: nat)
    requires
        limit >= 0,
    ensures
        ({
            let at = origin_after(current, target, limit, menubar, n);
            &&& at.x == travelled(current.x as int, target.x as int, limit, n)
            &&& at.y == travelled_above(
                current.y as int,
                target.y as int,
                limit,
                menubar as int,
                n,
            )
        }),
    decreases n,
{
    if n > 0 {
        lemma_origin_after(current, target, limit, menubar, (n - 1) as nat);
    }
}

proof fn lemma_size_after(current: Size, target: Size, limit: int, n: nat)
    requires
        limit >= 0,
    ensures
        ({
            let at = size_after(current, target, limit, n);
            &&& at.width == travelled(current.width as int, target.width as int, limit, n)
            &&& at.height == travelled(current.height as int, target.height as int, limit, n)
        }),
    decreases n,
{
    if n > 0 {
        lemma_size_after(current, target, limit, (n - 1) as nat);
    }
}

/// Every window arrives: the frame that is next after as many as the larger of its two distances
/// takes puts it where it is to be, and takes it to have arrived. A window that is to go above the
/// menu bar must be able to come as far in one frame as it is to go above it.
pub proof fn law_window_arrives(current: Point, target: Point, limit: int, menubar: i64)
    requires
        limit > 0,
        limit >= menubar - target.y,
    ensures
        ({
            let far = greatest(
                distance(current.x as int, target.x as int),
                distance(current.y as int, target.y as int),
            );
            let n = frames_before(far, limit) as nat;
            let before = origin_after(current, target, limit, menubar, n);
            let after = origin_after(current, target, limit, menubar, n + 1);
            &&& frames_before(far, limit) >= 0
            &&& arrives(
                before.x as int,
                target.x as int,
                before.y as int,
                target.y as int,
                limit,
            )
            &&& after.x == target.x
            &&& after.y == if target.y >= menubar {
                target.y
            } else {
                menubar
            }
        }),
{
    let far = greatest(
        distance(current.x as int, target.x as int),
        distance(current.y as int, target.y as int),
    );
    lemma_frames_suffice(far, limit);
    let n = frames_before(far, limit) as nat;
    lemma_travelled(current.x as int, target.x as int, limit, n);
    lemma_travelled_above(current.y as int, target.y as int, limit, menubar as int, n);
    lemma_origin_after(current, target, limit, menubar, n);
    lemma_origin_after(current, target, limit, menubar, n + 1);
}

/// Every window gets the size that it is to have: the frame that is next after as many as the
/// larger of the two differences takes gives it that size, and takes it to have it.
pub proof fn law_window_gets_size(current: Size, target: Size, limit: int)
    requires
        limit > 0,
    ensures
        ({
            let far = greatest(
                distance(current.width as int, target.width as int),
                distance(current.height as int, target.height as int),
            );
            let n = frames_before(far, limit) as nat;
            let before = size_after(current, target, limit, n);
            &&& frames_before(far, limit) >= 0
            &&& arrives(
                before.width as int,
                target.width as int,
                before.height as int,
                target.height as int,
                limit,
            )
            &&& size_after(current, target, limit, n + 1) == target
        }),
{
    let far = greatest(
        distance(current.width as int, target.width as int),
        distance(current.height as int, target.height as int),
    );
    lemma_frames_suffice(far, limit);
    let n = frames_before(far, limit) as nat;
    lemma_travelled(current.width as int, target.width as int, limit, n);
    lemma_travelled(current.height as int, target.height as int, limit, n);
    lemma_size_after(current, target, limit, n);
    lemma_size_after(current, target, limit, n + 1);
}

/// The sides of a window change steadily: after `n` frames each is `n` times what a frame allows
/// closer to what it is to be, larger or smaller, or has become that.
pub proof fn law_sizes_change_steadily(current: Size, target: Size, limit: int, n: nat)
    requires
        limit >= 0,
    ensures
        ({
            let after = size_after(current, target, limit, n);
            let way = n * limit;
            &&& current.width <= target.width ==> after.width == if target.width - current.width
                <= way {
                target.width as int
            } else {
                current.width + way
            }
            &&& current.width > target.width ==> after.width == if current.width - target.width
                <= way {
                target.width as int
            } else {
                current.width - way
            }
            &&& current.height <= target.height ==> after.height == if target.height
                - current.height <= way {
                target.height as int
            } else {
                current.height + way
            }
            &&& current.height > target.height ==> after.height == if current.height
                - target.height <= way {
                target.height as int
            } else {
                current.height - way
            }
        }),
{
    lemma_size_after(current, target, limit, n);
    lemma_travelled_exactly(current.width as int, target.width as int, limit, n);
    lemma_travelled_exactly(current.height as int, target.height as int, limit, n);
}

proof fn lemma_travelled_exactly(from: int, to: int, limit: int, n: nat)
    requires
        limit >= 0,
    ensures
        travelled(from, to, limit, n) == if from <= to {
            if to - from <= n * limit {
                to
            } else {
                from + n * limit
            }
        } else {
            if from - to <= n * limit {
                to
            } else {
                from - n * limit
            }
        },
    decreases n,
{
    assert(n == 0 ==> n * limit == 0) by (nonlinear_arith);
    if n > 0 {
        lemma_travelled_exactly(from, to, limit, (n - 1) as nat);
        assert(n * limit == (n - 1) * limit + limit) by (nonlinear_arith);
        assert((n - 1) * limit >= 0) by (nonlinear_arith)
            requires
                n > 0,
                limit >= 0,
        ;
    }
}

/// A window is taken to have arrived in exactly that frame which brings both its coordinates to
/// where they are to be.
pub proof fn law_arrival_is_reaching_target(
    from_x: int,
    to_x: int,
    from_y: int,
    to_y: int,
    limit: int,
)
    requires
        limit >= 0,
    ensures
        arrives(from_x, to_x, from_y, to_y, limit) == (travel(from_x, to_x, limit) == to_x
            && travel(from_y, to_y, limit) == to_y),
{
}

/// What a frame allows for is the way that the speed makes in the time, in widths of the display,
/// rounded up to whole points: it covers that way, and a point less would not.
pub proof fn law_frame_limit(display: Display, animation_speed: u64, delta: Span)
    requires
        display.wf(),
        delta.wf(),
    ensures
        ({
            let limit = frame_limit(display, animation_speed, delta);
            let nanos = delta.secs * 1_000_000_000 + delta.nanos;
            let way = animation_speed * nanos * display.bounds.size.width * 65_536;
            &&& limit >= 0
            &&& limit % 65_536 == 0
            &&& limit * 281_474_976_710_656_000_000_000 >= way
            &&& (limit - 65_536) * 281_474_976_710_656_000_000_000 < way || way == 0 && limit == 0
        }),
{
    let (s, t, w) = (animation_speed as int, delta.total(), display.bounds.size.width as int);
    let product = s * t * w;
    law_ceil_points(product, TRAVEL_POINT as int);
    assert(product >= 0) by (nonlinear_arith)
        requires
            s >= 0,
            t >= 0,
            w >= 0,
            product == s * t * w,
    ;
    let limit = frame_limit(display, animation_speed, delta);
    assert(limit >= 0) by {
        let points = -(-product / TRAVEL_POINT as int);
        assert(points * POINT >= 0) by (nonlinear_arith)
            requires
                points >= 0,
                POINT == 65_536,
        ;
    }
}

/// One frame of a window on its way: it is moved, on the first display that has the number, each
/// coordinate by what a frame allows toward where it is to be, or just there if that is closer,
/// and not above the menu bar. It is no longer asked to move if and only if both coordinates come
/// to where they are to be.
pub proof fn law_frame_moves_window(
    window: MovingWindow,
    displays: Seq<Display>,
    config: Config,
    delta: Span,
    d: int,
)
    requires
        0 <= d < displays.len(),
        displays[d].id == window.marker.display_id,
        forall|j: int| 0 <= j < d ==> (#[trigger] displays[j]).id != window.marker.display_id,
        displays[d].wf(),
        delta.wf(),
    ensures
        ({
            let out = moves(window, displays, config, delta);
            let limit = frame_limit(displays[d], config.animation_speed, delta);
            let (from, to) = (window.current, window.marker.origin);
            let menubar = displays[d].menubar_height;
            let there = -limit <= to.x - from.x <= limit && -limit <= to.y - from.y <= limit;
            &&& out.len() == if there {
                2int
            } else {
                1
            }
            &&& there ==> out[0] == Effect::Do(Action::Remove(window.entity, Marker::Reposition))
            &&& out[out.len() - 1] matches Effect::Do(Action::Reposition(entity, at, bounds)) && {
                &&& entity == window.entity
                &&& bounds == displays[d].bounds
                &&& to.x - from.x > limit ==> at.x == from.x + limit
                &&& from.x - to.x > limit ==> at.x == from.x - limit
                &&& -limit <= to.x - from.x <= limit ==> at.x == to.x
                &&& at.y >= menubar
                &&& to.y - from.y > limit ==> at.y == from.y + limit || at.y == menubar > from.y
                    + limit
                &&& from.y - to.y > limit ==> at.y == from.y - limit || at.y == menubar > from.y
                    - limit
                &&& -limit <= to.y - from.y <= limit ==> at.y == to.y || at.y == menubar > to.y
            }
        }),
{
    law_frame_limit(displays[d], config.animation_speed, delta);
    lemma_first_where(
        displays,
        |display: Display| display.id == window.marker.display_id,
        0,
        d,
    );
}

/// One frame of a window that changes its size: each side is changed, on the first display that
/// has the number, by what a frame allows toward what it is to be, larger or smaller, or just to
/// that if it is closer. The window is no longer asked to change if and only if it then has the
/// size that it is to have.
pub proof fn law_frame_resizes_window(
    window: ResizingWindow,
    displays: Seq<Display>,
    config: Config,
    delta: Span,
    d: int,
)
    requires
        0 <= d < displays.len(),
        displays[d].id == window.marker.display_id,
        forall|j: int| 0 <= j < d ==> (#[trigger] displays[j]).id != window.marker.display_id,
        displays[d].wf(),
        delta.wf(),
    ensures
        ({
            let out = grows(window, displays, config, delta);
            let limit = frame_limit(displays[d], config.animation_speed, delta);
            let (from, to) = (window.current, window.marker.size);
            let (wider, taller) = (to.width - from.width, to.height - from.height);
            &&& 1 <= out.len() <= 2
            &&& out[out.len() - 1] matches Effect::Do(Action::Resize(entity, size, bounds)) && {
                &&& entity == window.entity
                &&& bounds == displays[d].bounds
                &&& wider > limit ==> size.width == from.width + limit
                &&& -wider > limit ==> size.width == from.width - limit
                &&& -limit <= wider <= limit ==> size.width == to.width
                &&& taller > limit ==> size.height == from.height + limit
                &&& -taller > limit ==> size.height == from.height - limit
                &&& -limit <= taller <= limit ==> size.height == to.height
                &&& out.len() == 2 <==> size == to
            }
            &&& out.len() == 2 ==> out[0] == Effect::Do(
                Action::Remove(window.entity, Marker::Resize),
            )
        }),
{
    law_frame_limit(displays[d], config.animation_speed, delta);
    lemma_first_where(
        displays,
        |display: Display| display.id == window.marker.display_id,
        0,
        d,
    );
}

/// A window whose display is not there is left as it is.
pub proof fn law_no_display_no_frame(
    moving: MovingWindow,
    resizing: ResizingWindow,
    displays: Seq<Display>,
    config: Config,
    delta: Span,
)
    ensures
        (forall|j: int|
            0 <= j < displays.len() ==> (#[trigger] displays[j]).id != moving.marker.display_id)
            ==> moves(moving, displays, config, delta) == Seq::<Effect>::empty(),
        (forall|j: int|
            0 <= j < displays.len() ==> (#[trigger] displays[j]).id != resizing.marker.display_id)
            ==> grows(resizing, displays, config, delta) == Seq::<Effect>::empty(),
{
    law_find_where(displays, |display: Display| display.id == moving.marker.display_id);
    law_find_where(displays, |display: Display| display.id == resizing.marker.display_id);
}

/// No window is ever put above the menu bar.
pub proof fn law_below_menubar(current: Point, target: Point, limit: int, menubar: int)
    ensures
        next_origin(current, target, limit, menubar).1 >= menubar,
{
}

/// A valid size stays valid on the way to another valid one.
pub proof fn law_sizes_stay_valid(current: Size, target: Size, limit: int)
    requires
        current.valid(),
        target.valid(),
        limit >= 0,
    ensures
        next_size(current, target, limit).0 >= 0,
        next_size(current, target, limit).1 >= 0,
{
    law_no_overshoot(current.width as int, target.width as int, limit);
    law_no_overshoot(current.height as int, target.height as int, limit);
}

} // verus!
