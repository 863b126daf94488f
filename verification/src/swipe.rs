//! Sliding windows along with the fingers.

use vstd::prelude::*;

use crate::commands::{
    reposition_entity, reshuffle_around, Action, Commands, Flow, Marker,
};
#[allow(unused_imports)]
use crate::commands::{repositions, reshuffles, Component, Effect};
use crate::display::Display;
#[allow(unused_imports)]
use crate::ecs::ReshuffleAroundMarker;
use crate::ecs::{WMEventTrigger, WindowSwipeMarker};
use crate::events::{Config, Event};
#[allow(unused_imports)]
use crate::geometry::{greatest, least};
use crate::geometry::{floor_div, Rect, WHOLE};
#[allow(unused_imports)]
use crate::pane::{column_of, law_neighbour_beside, law_no_neighbour, neighbour};
use crate::pane::{Entity, WindowPane};
use crate::platform::WinID;
#[allow(unused_imports)]
use crate::sequences::{find_where, lemma_first_where};

verus! {

/// How long after a swipe has gone on to the next window another one may not, in milliseconds.
pub const DEBOUNCE_SWIPE_EVENTS_MS: u64 = 500;

/// A window that is being swiped.
#[derive(Clone, Copy, Debug, PartialEq, Eq, Structural)]
pub struct SwipedWindow {
    pub entity: Entity,
    pub frame: Rect,
    pub marker: WindowSwipeMarker,
}

/// A managed window and the number that the system gave it.
#[derive(Clone, Copy, Debug, PartialEq, Eq, Structural)]
pub struct ManagedWindow {
    pub entity: Entity,
    pub id: WinID,
}

/// What follows a swipe.
#[derive(Clone, Copy, Debug, PartialEq, Eq, Structural)]
pub enum SwipeStep {
    /// No further swipe is to be looked at.
    Stop,
    /// The window has reached an edge, beyond which it would have come to `pos_x`, in parts of
    /// [`WHOLE`] to the unit of length: the swipe goes on to the next window unless one has just
    /// done so.
    AtEdge { pos_x: i128 },
}

/// Where a swiped window would come to if the display had no edges, in parts of [`WHOLE`] to the
/// unit of length.
pub open spec fn swiped_to(window: SwipedWindow, display_width: int) -> int {
    window.frame.origin.x * WHOLE - window.marker.0 * display_width
}

/// The place on a display that is closest to `x` for a window of a width.
pub open spec fn on_display(x: int, width: int, display_width: int) -> int {
    greatest(least(x, display_width - width), 0)
}

/// A swiped window reaches neither edge of the display.
pub open spec fn stays_inside(window: SwipedWindow, display_width: int) -> bool {
    0 < swiped_to(window, display_width) < (display_width - window.frame.size.width) * WHOLE
}

/// What a swipe does to its window: it is moved, and if it reaches no edge the others are
/// arranged around it.
pub open spec fn swipes(alive: Seq<Entity>, window: SwipedWindow, display: Display) -> Seq<Effect> {
    let display_width = display.bounds.size.width as int;
    let x = on_display(
        swiped_to(window, display_width) / WHOLE as int,
        window.frame.size.width as int,
        display_width,
    );
    seq![Effect::Do(Action::Remove(window.entity, Marker::WindowSwipe))] + repositions(
        alive,
        window.entity,
        x as i64,
        window.frame.origin.y,
        display.id,
    ) + if stays_inside(window, display_width) {
        reshuffles(alive, window.entity)
    } else {
        Seq::empty()
    }
}

/// Slides a window by the fraction of the width of the display that its marker says, but not over
/// the edge of the display.
///
/// If it does not reach an edge, the others are arranged around it. If it does, and swipes are
/// continuous, the swipe may go on to the next window.
pub fn window_swiper(
    window: &SwipedWindow,
    active_display: &Display,
    config: &Config,
    commands: &mut Commands,
) -> (step: SwipeStep)
    requires
        active_display.wf(),
        window.frame.valid(),
    ensures
        final(commands).extends(
            *old(commands),
            swipes(old(commands).alive(), *window, *active_display),
        ),
        ({
            let display_width = active_display.bounds.size.width as int;
            let inside = stays_inside(*window, display_width);
            match step {
                SwipeStep::Stop => inside || !config.continuous_swipe,
                SwipeStep::AtEdge { pos_x } => !inside && config.continuous_swipe && pos_x == swiped_to(
                    *window,
                    display_width,
                ),
            }
        }),
{
    let display_width: i64 = active_display.bounds.size.width;
    let fraction: i64 = window.marker.0;
    let frame: Rect = window.frame;
    assert(-0x8000_0000_0000_0000 * 0x8000_0000_0000_0000 <= fraction * display_width
        <= 0x8000_0000_0000_0000 * 0x8000_0000_0000_0000) by (nonlinear_arith)
        requires
            -0x8000_0000_0000_0000 <= fraction <= 0x7fff_ffff_ffff_ffff,
            0 <= display_width <= 0x7fff_ffff_ffff_ffff,
    ;
    let left: i64 = frame.origin.x;
    let rightmost: i128 = display_width as i128 - frame.size.width as i128;
    assert(-0x8000_0000_0000_0000_0000_0000 <= left * WHOLE <= 0x8000_0000_0000_0000_0000_0000)
        by (nonlinear_arith)
        requires
            -0x8000_0000_0000_0000 <= left <= 0x7fff_ffff_ffff_ffff,
            WHOLE == 4_294_967_296,
    ;
    assert(-0x8000_0000_0000_0000_0000_0000 <= rightmost * WHOLE
        <= 0x8000_0000_0000_0000_0000_0000) by (nonlinear_arith)
        requires
            -0x8000_0000_0000_0000 <= rightmost <= 0x7fff_ffff_ffff_ffff,
            WHOLE == 4_294_967_296,
    ;
    let pos_x: i128 = left as i128 * WHOLE as i128 - fraction as i128
        * display_width as i128;
    let mut x: i128 = floor_div(pos_x, WHOLE as i128);
    if x > rightmost {
        x = rightmost;
    }
    if x < 0 {
        x = 0;
    }
    commands.push(Action::Remove(window.entity, Marker::WindowSwipe));
    reposition_entity(window.entity, x as i64, frame.origin.y, active_display.id, commands);
    if pos_x > 0 && pos_x < rightmost * WHOLE as i128 {
        reshuffle_around(window.entity, commands);
        assert(commands@ =~= old(commands)@ + swipes(
            old(commands).alive(),
            *window,
            *active_display,
        ));
        return SwipeStep::Stop;
    }
    assert(commands@ =~= old(commands)@ + swipes(old(commands).alive(), *window, *active_display));
    if !config.continuous_swipe {
        return SwipeStep::Stop;
    }
    SwipeStep::AtEdge { pos_x }
}

/// The window that a swipe goes on to: the one to the right if the swiped window has left the
/// display on the left, else the one to the left.
pub open spec fn next_window(active_panel: Option<WindowPane>, entity: Entity, pos_x: int) -> Option<
    Entity,
> {
    match active_panel {
        Some(pane) => neighbour(
            pane@,
            entity,
            if pos_x < 0 {
                1
            } else {
                -1
            },
        ),
        None => None,
    }
}

/// Asks for the windows to be arranged around the one that a swipe goes on to, and says which it
/// is.
pub fn slide_to_next_window(
    active_panel: Option<&WindowPane>,
    entity: Entity,
    pos_x: i128,
    commands: &mut Commands,
) -> (next: Option<Entity>)
    ensures
        next == match active_panel {
            Some(pane) => next_window(Some(*pane), entity, pos_x as int),
            None => None,
        },
        final(commands).extends(
            *old(commands),
            match next {
                Some(next) => reshuffles(old(commands).alive(), next),
                None => Seq::empty(),
            },
        ),
{
    assert(commands@ + Seq::<Effect>::empty() =~= commands@);
    let next = match active_panel {
        Some(pane) => if pos_x < 0 {
            pane.right_neighbour(entity)
        } else {
            pane.left_neighbour(entity)
        },
        None => None,
    };
    if let Some(next) = next {
        reshuffle_around(next, commands);
    }
    next
}

/// The number of the window of an entity.
pub open spec fn id_of(windows: Seq<ManagedWindow>, entity: Entity) -> Option<WinID> {
    match find_where(windows, |window: ManagedWindow| window.entity == entity) {
        Some(window) => Some(window.id),
        None => None,
    }
}

/// The number of the window of an entity.
fn window_id(windows: &[ManagedWindow], entity: Entity) -> (id: Option<WinID>)
    ensures
        id == id_of(windows@, entity),
{
    let ghost p = |window: ManagedWindow| window.entity == entity;
    let mut i: usize = 0;
    while i < windows.len()
        invariant
            0 <= i <= windows@.len(),
            p == (|window: ManagedWindow| window.entity == entity),
            forall|j: int| 0 <= j < i ==> !p(#[trigger] windows@[j]),
        decreases windows@.len() - i,
    {
        if windows[i].entity == entity {
            proof {
                lemma_first_where(windows@, p, 0, i as int);
            }
            return Some(windows[i].id);
        }
        i += 1;
    }
    proof {
        lemma_first_where(windows@, p, 0, windows@.len() as int);
    }
    None
}

/// What a swipe does that goes on to the next window: the others are arranged around that one,
/// and it is told that it has the focus.
pub open spec fn slides(
    alive: Seq<Entity>,
    next: Option<Entity>,
    windows: Seq<ManagedWindow>,
) -> Seq<Effect> {
    match next {
        Some(next) => reshuffles(alive, next) + match id_of(windows, next) {
            Some(window_id) => seq![
                Effect::Do(Action::Trigger(WMEventTrigger(Event::WindowFocused { window_id }))),
            ],
            None => Seq::empty(),
        },
        None => Seq::empty(),
    }
}

/// Lets a swipe that has reached an edge go on to the next window, unless one has just done so
/// (`bounced`).
pub fn swipe_past_edge(
    entity: Entity,
    pos_x: i128,
    bounced: bool,
    active_panel: Option<&WindowPane>,
    windows: &[ManagedWindow],
    commands: &mut Commands,
) -> (flow: Flow)
    ensures
        if bounced {
            flow == Flow::Stop && *final(commands) == *old(commands)
        } else {
            flow == Flow::Continue && final(commands).extends(
                *old(commands),
                slides(
                    old(commands).alive(),
                    match active_panel {
                        Some(pane) => next_window(Some(*pane), entity, pos_x as int),
                        None => None,
                    },
                    windows@,
                ),
            )
        },
{
    if bounced {
        return Flow::Stop;
    }
    if let Some(next) = slide_to_next_window(active_panel, entity, pos_x, commands) {
        assert(commands@ + Seq::<Effect>::empty() =~= commands@);
        if let Some(window_id) = window_id(windows, next) {
            commands.push(Action::Trigger(WMEventTrigger(Event::WindowFocused { window_id })));
        }
        assert(commands@ =~= old(commands)@ + slides(old(commands).alive(), Some(next), windows@));
    }
    Flow::Continue
}

/// A swipe leaves a window that fits on the display fully on it.
pub proof fn law_swipe_stays_on_display(x: int, width: int, display_width: int)
    requires
        0 <= width <= display_width,
    ensures
        0 <= on_display(x, width, display_width),
        on_display(x, width, display_width) + width <= display_width,
{
}

/// A swipe moves a window that does not reach an edge to where the fingers take it, less what no
/// unit of length can tell.
pub proof fn law_swipe_follows_fingers(window: SwipedWindow, display_width: int)
    requires
        stays_inside(window, display_width),
    ensures
        ({
            let to = swiped_to(window, display_width);
            let x = on_display(
                to / WHOLE as int,
                window.frame.size.width as int,
                display_width,
            );
            x * WHOLE <= to < (x + 1) * WHOLE
        }),
{
}

/// A swipe goes on to the side from which the window came: one that has left the display on the
/// left is followed by the column to its right, and any other by the column to its left. `i` is
/// the column in which the window stands, and `j` the next one that holds a window on that side.
pub proof fn law_swipe_goes_on_to_the_other_side(
    pane: WindowPane,
    entity: Entity,
    pos_x: int,
    i: int,
    j: int,
)
    requires
        0 <= i < pane@.len(),
        0 <= j < pane@.len(),
        column_of(pane@, entity) == i,
        pane@[j].windows().len() > 0,
        if pos_x < 0 {
            i < j && forall|k: int| i < k < j ==> (#[trigger] pane@[k]).windows().len() == 0
        } else {
            j < i && forall|k: int| j < k < i ==> (#[trigger] pane@[k]).windows().len() == 0
        },
    ensures
        next_window(Some(pane), entity, pos_x) == Some(pane@[j].windows()[0]),
{
    law_neighbour_beside(pane@, entity, i, j);
}

/// A swipe goes on to no window if there is none on that side, and none without a workspace.
pub proof fn law_swipe_ends(pane: WindowPane, entity: Entity, pos_x: int, i: int)
    requires
        0 <= i <= pane@.len(),
        column_of(pane@, entity) == i,
    ensures
        next_window(None, entity, pos_x) is None,
        i == pane@.len() ==> next_window(Some(pane), entity, pos_x) is None,
        pos_x < 0 && (forall|k: int|
            i < k < pane@.len() ==> (#[trigger] pane@[k]).windows().len() == 0) ==> next_window(
            Some(pane),
            entity,
            pos_x,
        ) is None,
        pos_x >= 0 && (forall|k: int| 0 <= k < i ==> (#[trigger] pane@[k]).windows().len() == 0)
            ==> next_window(Some(pane), entity, pos_x) is None,
{
    law_no_neighbour(pane@, entity, i);
}

/// A window that fits on the display and that a swipe has stopped at the right edge is followed by
/// the column to its left, and one that it has pushed over the left edge by the column to its
/// right; `pos_x` is where the swipe would have taken it.
pub proof fn law_edge_decides_neighbour(
    window: SwipedWindow,
    pane: WindowPane,
    display_width: int,
    i: int,
)
    requires
        0 < i < pane@.len() - 1,
        column_of(pane@, window.entity) == i,
        pane@[i - 1].windows().len() > 0,
        pane@[i + 1].windows().len() > 0,
        0 <= window.frame.size.width <= display_width,
    ensures
        window.frame.origin.x * 4_294_967_296 - window.marker.0 * display_width >= (display_width
            - window.frame.size.width) * 4_294_967_296 ==> next_window(
            Some(pane),
            window.entity,
            swiped_to(window, display_width),
        ) == Some(pane@[i - 1].windows()[0]),
        window.frame.origin.x * 4_294_967_296 - window.marker.0 * display_width < 0 ==> next_window(
            Some(pane),
            window.entity,
            swiped_to(window, display_width),
        ) == Some(pane@[i + 1].windows()[0]),
{
    let to = swiped_to(window, display_width);
    law_neighbour_beside(pane@, window.entity, i, i - 1);
    law_neighbour_beside(pane@, window.entity, i, i + 1);
}

/// What a swipe asks for: its marker is taken off; the window is asked to move, at its height, to
/// where the fraction of the width of the display takes it (to the left for a positive one), but
/// not over an edge; and the others are arranged around it if and only if it reaches no edge.
pub proof fn law_swipe_moves_window(alive: Seq<Entity>, window: SwipedWindow, display: Display)
    requires
        display.wf(),
        window.frame.valid(),
        alive.contains(window.entity),
    ensures
        ({
            let asks = swipes(alive, window, display);
            let (width, display_width) = (window.frame.size.width, display.bounds.size.width);
            let to = window.frame.origin.x * 4_294_967_296 - window.marker.0 * display_width;
            let last = (display_width - width) * 4_294_967_296;
            let inside = 0 < to < last;
            &&& asks.len() == if inside {
                3int
            } else {
                2
            }
            &&& asks[0] == Effect::Do(Action::Remove(window.entity, Marker::WindowSwipe))
            &&& asks[1] matches Effect::Do(Action::Insert(entity, Component::Reposition(marker)))
                && {
                &&& entity == window.entity
                &&& marker.display_id == display.id
                &&& marker.origin.y == window.frame.origin.y
                &&& to <= 0 ==> marker.origin.x == 0
                &&& to >= last && last > 0 ==> marker.origin.x == display_width - width
                &&& last <= 0 ==> marker.origin.x == 0
                &&& inside ==> marker.origin.x * 4_294_967_296 <= to < (marker.origin.x + 1)
                    * 4_294_967_296
            }
            &&& inside ==> asks[2] == Effect::Do(
                Action::Insert(window.entity, Component::ReshuffleAround(ReshuffleAroundMarker)),
            )
        }),
{
}

/// A window that is not there any more is asked for nothing but that its marker is taken off.
pub proof fn law_swipe_of_a_window_that_is_gone(
    alive: Seq<Entity>,
    window: SwipedWindow,
    display: Display,
)
    requires
        !alive.contains(window.entity),
    ensures
        swipes(alive, window, display) == seq![
            Effect::Do(Action::Remove(window.entity, Marker::WindowSwipe)),
        ],
{
    assert(swipes(alive, window, display) =~= seq![
        Effect::Do(Action::Remove(window.entity, Marker::WindowSwipe)),
    ]);
}

/// A swipe that goes on has the windows arranged around the next one, and tells that that one has
/// the focus, by the number that the system gave it.
pub proof fn law_slide_focuses_next(
    alive: Seq<Entity>,
    next: Entity,
    windows: Seq<ManagedWindow>,
    i: int,
)
    requires
        alive.contains(next),
        0 <= i <= windows.len(),
        forall|j: int| 0 <= j < i ==> (#[trigger] windows[j]).entity != next,
        i < windows.len() ==> windows[i].entity == next,
    ensures
        slides(alive, None, windows) == Seq::<Effect>::empty(),
        ({
            let asks = slides(alive, Some(next), windows);
            &&& asks.len() == if i < windows.len() {
                2int
            } else {
                1
            }
            &&& asks[0] == Effect::Do(
                Action::Insert(next, Component::ReshuffleAround(ReshuffleAroundMarker)),
            )
            &&& i < windows.len() ==> asks[1] == Effect::Do(
                Action::Trigger(WMEventTrigger(Event::WindowFocused { window_id: windows[i].id })),
            )
        }),
{
    lemma_first_where(windows, |window: ManagedWindow| window.entity == next, 0, i);
}

/// A swipe that goes on to a window that is not there any more arranges nothing, and still tells
/// of the focus.
pub proof fn law_slide_to_a_window_that_is_gone(
    alive: Seq<Entity>,
    next: Entity,
    windows: Seq<ManagedWindow>,
)
    requires
        !alive.contains(next),
    ensures
        slides(alive, Some(next), windows) == slides(seq![next], Some(next), windows).skip(1),
{
    assert(seq![next][0] == next);
    assert(seq![next].contains(next));
    assert(slides(alive, Some(next), windows) =~= slides(seq![next], Some(next), windows).skip(1));
}

} // verus!
