//! Arranging the windows of a workspace around one of them.

use vstd::prelude::*;

use crate::binpack::binpack_heights;
#[allow(unused_imports)]
use crate::binpack::{
    law_stack_fits, law_stack_keeps_minimum, law_stack_shares_the_rest, law_stack_within_total,
    lemma_packable, packed, sum,
};
use crate::commands::{reposition_entity, resize_entity, Action, Commands, Flow, Marker};
#[allow(unused_imports)]
use crate::commands::{repositions, resizes, Component, Effect};
use crate::display::Display;
use crate::ecs::WMEventTrigger;
#[allow(unused_imports)]
use crate::ecs::{RepositionMarker, ResizeMarker};
use crate::events::Event;
use crate::geometry::Rect;
#[allow(unused_imports)]
use crate::layout::{all_valid, arranged, known_widths, lemma_known_widths_len, size_of};
use crate::layout::{calculate_positions, window_size, TiledWindow, MIN_WINDOW_HEIGHT};
#[allow(unused_imports)]
use crate::pane::{column_of, columns, lemma_top_has_column};
use crate::pane::{Entity, Panel, WindowPane};
use crate::platform::DisplayID;
#[allow(unused_imports)]
use crate::sequences::{
    gather_below, lemma_first_where_is, lemma_gather_below_has, lemma_gather_below_same,
    lemma_gather_pairs, lemma_gathered_below,
};

verus! {

/// Every window of a stack is known.
pub open spec fn all_known(entities: Seq<Entity>, windows: Seq<TiledWindow>) -> bool {
    forall|i: int| 0 <= i < entities.len() ==> size_of(windows, #[trigger] entities[i]) is Some
}

/// How tall the windows of a stack ask to be.
pub open spec fn asked_heights(entities: Seq<Entity>, windows: Seq<TiledWindow>) -> Seq<i64> {
    Seq::new(entities.len(), |i: int| size_of(windows, entities[i])->0.height)
}

/// The heights that the windows of a stack are given on a display, below its menu bar; `None` if
/// a window is not known or they do not fit.
pub open spec fn stack_heights(
    entities: Seq<Entity>,
    windows: Seq<TiledWindow>,
    bounds: Rect,
    menubar_height: i64,
) -> Option<Seq<int>> {
    if all_known(entities, windows) {
        packed(
            asked_heights(entities, windows),
            MIN_WINDOW_HEIGHT as int,
            bounds.size.height - menubar_height,
        )
    } else {
        None
    }
}

/// Asking for window `i` of a stack to take its place below those above it.
pub open spec fn stacks_window(
    alive: Seq<Entity>,
    entities: Seq<Entity>,
    heights: Seq<int>,
    upper_left: i64,
    width: i64,
    display_id: DisplayID,
    i: int,
) -> Seq<Effect> {
    repositions(alive, entities[i], upper_left, sum(heights.take(i)) as i64, display_id) + resizes(
        alive,
        entities[i],
        width,
        heights[i] as i64,
        display_id,
    )
}

/// Asking for all windows of a column to take their places: one below the other, at the same
/// left edge and with the same width. Nothing is asked for if they do not fit.
pub open spec fn stacks(
    alive: Seq<Entity>,
    upper_left: i64,
    entities: Seq<Entity>,
    width: i64,
    display: Display,
    windows: Seq<TiledWindow>,
) -> Seq<Effect> {
    match stack_heights(entities, windows, display.bounds, display.menubar_height) {
        Some(heights) => gather_below(
            entities.len() as int,
            |i: int|
                stacks_window(alive, entities, heights, upper_left, width, display.id, i),
        ),
        None => Seq::empty(),
    }
}

/// The windows at the top of a stack are no taller than all of it.
proof fn lemma_partial_sum(heights: Seq<int>, i: int)
    requires
        0 <= i <= heights.len(),
        forall|j: int| 0 <= j < heights.len() ==> heights[j] >= 0,
    ensures
        0 <= sum(heights.take(i)) <= sum(heights),
    decreases heights.len(),
{
    if i == heights.len() {
        assert(heights.take(i) =~= heights);
        if i > 0 {
            lemma_partial_sum(heights.drop_last(), i - 1);
        }
    } else {
        lemma_partial_sum(heights.drop_last(), i);
        assert(heights.drop_last().take(i) =~= heights.take(i));
    }
}

/// Asks for all windows of a column to take their places.
pub fn reposition_stack(
    upper_left: i64,
    panel: &Panel,
    width: i64,
    active_display: &Display,
    windows: &[TiledWindow],
    commands: &mut Commands,
)
    requires
        panel.wf(),
        active_display.wf(),
        all_valid(windows@),
    ensures
        final(commands).extends(
            *old(commands),
            stacks(
                old(commands).alive(),
                upper_left,
                panel.windows(),
                width,
                *active_display,
                windows@,
            ),
        ),
{
    let display_height: i64 = active_display.bounds.size.height - active_display.menubar_height;
    let entities = panel.to_windows();
    let ghost asked = asked_heights(entities@, windows@);
    let mut heights: Vec<i64> = Vec::new();
    let mut i: usize = 0;
    assert(commands@ + Seq::<Effect>::empty() =~= commands@);
    while i < entities.len()
        invariant
            all_valid(windows@),
            0 <= i <= entities@.len(),
            asked == asked_heights(entities@, windows@),
            heights@ == asked.take(i as int),
            forall|j: int|
                0 <= j < i ==> size_of(windows@, #[trigger] entities@[j]) is Some && asked[j] >= 0,
            *commands == *old(commands),
            entities@ == panel.windows(),
            commands@ + Seq::<Effect>::empty() == commands@,
        decreases entities@.len() - i,
    {
        match window_size(windows, entities[i]) {
            Some(size) => {
                heights.push(size.height);
            },
            None => {
                assert(!all_known(entities@, windows@));
                return ;
            },
        }
        i += 1;
        assert(heights@ =~= asked.take(i as int));
    }
    assert(asked.take(i as int) =~= asked);
    proof {
        lemma_packable(asked, MIN_WINDOW_HEIGHT as int, display_height as int);
    }
    let heights: Vec<i64> = match binpack_heights(
        heights.as_slice(),
        MIN_WINDOW_HEIGHT,
        display_height,
    ) {
        Some(heights) => heights,
        None => {
            return ;
        },
    };
    let ghost given = heights@.map_values(|h: i64| h as int);
    let ghost f = |i: int|
        stacks_window(
            commands.alive(),
            entities@,
            given,
            upper_left,
            width,
            active_display.id,
            i,
        );
    proof {
        if asked.len() > 0 {
            law_stack_within_total(asked, MIN_WINDOW_HEIGHT as int, display_height as int);
        }
        assert forall|j: int| 0 <= j < given.len() implies given[j] >= 0 by {
            law_stack_keeps_minimum(asked, MIN_WINDOW_HEIGHT as int, display_height as int, j);
        }
        assert(given.take(0) =~= Seq::<int>::empty());
    }
    let mut y_pos: i64 = 0;
    let mut i: usize = 0;
    let n: usize = entities.len();
    while i < n
        invariant
            0 <= i <= n == entities@.len() == heights@.len(),
            given == heights@.map_values(|h: i64| h as int),
            forall|j: int| 0 <= j < given.len() ==> given[j] >= 0,
            n > 0 ==> sum(given) <= display_height,
            y_pos == sum(given.take(i as int)),
            f == (|i: int|
                stacks_window(
                    old(commands).alive(),
                    entities@,
                    given,
                    upper_left,
                    width,
                    active_display.id,
                    i,
                )),
            commands.extends(*old(commands), gather_below(i as int, f)),
        decreases n - i,
    {
        proof {
            lemma_partial_sum(given, i + 1);
            assert(given.take(i + 1).drop_last() =~= given.take(i as int));
        }
        reposition_entity(entities[i], upper_left, y_pos, active_display.id, commands);
        resize_entity(entities[i], width, heights[i], active_display.id, commands);
        y_pos = y_pos + heights[i];
        i += 1;
        assert(commands@ =~= old(commands)@ + gather_below(i as int, f));
    }
}

/// Asking for column `k` to take its place at `positions[k]`, with the width of its uppermost
/// window; nothing if that window is not known.
///
/// The windows that are moved are those of the first column in which that window stands.
pub open spec fn arranges_column(
    alive: Seq<Entity>,
    panels: Seq<Panel>,
    positions: Seq<int>,
    display: Display,
    windows: Seq<TiledWindow>,
    k: int,
) -> Seq<Effect> {
    let top = columns(panels)[k];
    match size_of(windows, top) {
        Some(size) => stacks(
            alive,
            positions[k] as i64,
            panels[column_of(panels, top)].windows(),
            size.width,
            display,
            windows,
        ),
        None => Seq::empty(),
    }
}

/// Asking for columns to take their places, from left to right, as many as there are positions.
pub open spec fn arranges(
    alive: Seq<Entity>,
    panels: Seq<Panel>,
    positions: Seq<int>,
    display: Display,
    windows: Seq<TiledWindow>,
) -> Seq<Effect> {
    gather_below(
        positions.len() as int,
        |k: int| arranges_column(alive, panels, positions, display, windows, k),
    )
}

/// Whether the workspace of the active display may be arranged: `active_id` is the display that
/// is taken to be active, `current_id` the one that the system says is.
///
/// If the two differ, that is told instead.
pub fn reshuffle_allowed(
    active_id: DisplayID,
    current_id: Option<DisplayID>,
    commands: &mut Commands,
) -> (flow: Flow)
    ensures
        if current_id is Some && current_id->0 != active_id {
            flow == Flow::Stop && final(commands).extends(
                *old(commands),
                seq![Effect::Do(Action::Trigger(WMEventTrigger(Event::DisplayChanged)))],
            )
        } else {
            flow == Flow::Continue && *final(commands) == *old(commands)
        },
{
    if let Some(id) = current_id {
        if id != active_id {
            commands.push(Action::Trigger(WMEventTrigger(Event::DisplayChanged)));
            return Flow::Stop;
        }
    }
    Flow::Continue
}

/// Takes up the request to arrange the windows around `entity`, and says whether it has a window,
/// which is then to be brought into view.
pub fn reshuffle_begin(entity: Entity, windows: &[TiledWindow], commands: &mut Commands) -> (found:
    bool)
    ensures
        found == (size_of(windows@, entity) is Some),
        final(commands).extends(
            *old(commands),
            if old(commands).alive().contains(entity) {
                seq![Effect::Do(Action::Remove(entity, Marker::ReshuffleAround))]
            } else {
                Seq::empty()
            },
        ),
{
    if commands.has_entity(entity) {
        commands.push(Action::Remove(entity, Marker::ReshuffleAround));
    } else {
        assert(commands@ + Seq::<Effect>::empty() =~= commands@);
    }
    window_size(windows, entity).is_some()
}

/// Arranges the windows of a workspace around `entity`, whose window has been brought into view
/// with its left edge at `exposed_x`.
///
/// The columns stand side by side, and those that are out of view keep a strip at the edge of the
/// display. The windows of a column stand one below the other. There are as many positions as
/// columns whose uppermost window is known, and the columns take them up from the left, known or
/// not. If there is none for the column in which `entity` stands, nothing is arranged and no
/// further request is taken up.
pub fn reshuffle_around_window(
    entity: Entity,
    exposed_x: i64,
    active_display: &Display,
    active_panel: &WindowPane,
    windows: &[TiledWindow],
    commands: &mut Commands,
) -> (flow: Flow)
    requires
        active_display.wf(),
        active_panel.wf(),
        all_valid(windows@),
    ensures
        ({
            let widths = known_widths(active_panel@, windows@);
            let anchor = column_of(active_panel@, entity);
            if anchor < active_panel@.len() && anchor < widths.len() {
                flow == Flow::Continue && final(commands).extends(
                    *old(commands),
                    arranges(
                        old(commands).alive(),
                        active_panel@,
                        arranged(
                            widths,
                            anchor,
                            exposed_x as int,
                            active_display.bounds.size.width as int,
                        ),
                        *active_display,
                        windows@,
                    ),
                )
            } else {
                flow == Flow::Stop && *final(commands) == *old(commands)
            }
        }),
{
    let positions: Vec<i64> = match calculate_positions(
        entity,
        exposed_x,
        active_display.bounds.size.width,
        active_panel,
        windows,
    ) {
        Some(positions) => positions,
        None => {
            return Flow::Stop;
        },
    };
    let tops = active_panel.all_columns();
    let ghost placed = positions@.map_values(|x: i64| x as int);
    let ghost f = |k: int|
        arranges_column(commands.alive(), active_panel@, placed, *active_display, windows@, k);
    let mut i: usize = 0;
    proof {
        lemma_known_widths_len(active_panel@, windows@);
        assert(placed.len() <= tops@.len());
        assert(commands@ + Seq::<Effect>::empty() =~= commands@);
    }
    while i < positions.len()
        invariant
            active_display.wf(),
            active_panel.wf(),
            all_valid(windows@),
            tops@ == columns(active_panel@),
            placed == positions@.map_values(|x: i64| x as int),
            0 <= i <= positions@.len() <= tops@.len(),
            f == (|k: int|
                arranges_column(
                    old(commands).alive(),
                    active_panel@,
                    placed,
                    *active_display,
                    windows@,
                    k,
                )),
            commands.extends(*old(commands), gather_below(i as int, f)),
        decreases positions@.len() - i,
    {
        proof {
            lemma_top_has_column(active_panel@, i as int);
            assert(commands@ + Seq::<Effect>::empty() =~= commands@);
        }
        if let Some(size) = window_size(windows, tops[i]) {
            if let Some(index) = active_panel.index_of(tops[i]) {
                if let Some(panel) = active_panel.get(index) {
                    assert(active_panel@[index as int].wf());
                    reposition_stack(
                        positions[i],
                        panel,
                        size.width,
                        active_display,
                        windows,
                        commands,
                    );
                }
            }
        }
        i += 1;
        assert(commands@ =~= old(commands)@ + gather_below(i as int, f));
    }
    Flow::Continue
}

/// The windows of a stack stand one below the other without gaps, and all of them stand within
/// the height of the display less its menu bar.
pub proof fn law_stack_tiles(
    entities: Seq<Entity>,
    windows: Seq<TiledWindow>,
    bounds: Rect,
    menubar_height: i64,
    i: int,
)
    requires
        all_valid(windows),
        0 <= i < entities.len(),
        stack_heights(entities, windows, bounds, menubar_height) is Some,
    ensures
        ({
            let heights = stack_heights(entities, windows, bounds, menubar_height)->0;
            &&& heights.len() == entities.len()
            &&& heights[i] >= 0
            &&& sum(heights.take(i + 1)) == sum(heights.take(i)) + heights[i]
            &&& 0 <= sum(heights.take(i))
            &&& sum(heights.take(i + 1)) <= bounds.size.height - menubar_height
        }),
{
    let asked = asked_heights(entities, windows);
    let (min, total) = (MIN_WINDOW_HEIGHT as int, bounds.size.height - menubar_height);
    let heights = packed(asked, min, total)->0;
    assert forall|j: int| 0 <= j < asked.len() implies asked[j] >= 0 by {
        lemma_first_where_is(
            windows,
            |window: TiledWindow| window.entity == entities[j],
            0,
        );
        assert(size_of(windows, entities[j]) is Some);
    }
    law_stack_within_total(asked, min, total);
    assert forall|j: int| 0 <= j < heights.len() implies heights[j] >= 0 by {
        law_stack_keeps_minimum(asked, min, total, j);
    }
    lemma_partial_sum(heights, i);
    lemma_partial_sum(heights, i + 1);
    assert(heights.take(i + 1).drop_last() =~= heights.take(i));
}

/// The window that a change asks to be moved, and where to.
pub open spec fn move_asked(effect: Effect) -> Option<(Entity, RepositionMarker)> {
    match effect {
        Effect::Do(Action::Insert(entity, Component::Reposition(marker))) => Some(
            (entity, marker),
        ),
        _ => None,
    }
}

/// The window that a change asks to be resized, and how large.
pub open spec fn size_asked(effect: Effect) -> Option<(Entity, ResizeMarker)> {
    match effect {
        Effect::Do(Action::Insert(entity, Component::Resize(marker))) => Some((entity, marker)),
        _ => None,
    }
}

/// The windows of a stack, all of them known, share the height of the display below its menu bar,
/// and none is made less than 200 points tall; a stack with a window that is not known gets no
/// heights.
pub proof fn law_stack_shares_display(
    entities: Seq<Entity>,
    windows: Seq<TiledWindow>,
    bounds: Rect,
    menubar_height: i64,
    asked: Seq<i64>,
)
    requires
        asked.len() == entities.len(),
    ensures
        (forall|i: int|
            0 <= i < entities.len() ==> size_of(windows, #[trigger] entities[i]) is Some && size_of(
                windows,
                entities[i],
            )->0.height == asked[i]) ==> stack_heights(entities, windows, bounds, menubar_height)
            == packed(asked, 13_107_200, bounds.size.height - menubar_height),
        (exists|i: int|
            0 <= i < entities.len() && size_of(windows, #[trigger] entities[i]) is None)
            ==> stack_heights(entities, windows, bounds, menubar_height) is None,
{
    if forall|i: int|
        0 <= i < entities.len() ==> size_of(windows, #[trigger] entities[i]) is Some && size_of(
            windows,
            entities[i],
        )->0.height == asked[i] {
        assert(asked_heights(entities, windows) =~= asked);
    }
}

/// A window that stands alone in its column fills the display below the menu bar.
pub proof fn law_single_window_fills(
    entity: Entity,
    windows: Seq<TiledWindow>,
    bounds: Rect,
    menubar_height: i64,
)
    requires
        all_valid(windows),
        size_of(windows, entity) is Some,
        bounds.size.height - menubar_height >= 13_107_200,
    ensures
        stack_heights(seq![entity], windows, bounds, menubar_height) == Some(
            seq![bounds.size.height - menubar_height],
        ),
{
    let entities = seq![entity];
    let total = bounds.size.height - menubar_height;
    let asked = asked_heights(entities, windows);
    lemma_asked_valid(entities, windows);
    assert(entities[0] == entity);
    law_stack_fits(asked, 13_107_200, total, 0);
    law_stack_shares_the_rest(asked, 13_107_200, total, 0, 0);
    assert(packed(asked, 13_107_200, total)->0 =~= seq![total]);
}

/// Windows of known sizes ask for no negative heights.
proof fn lemma_asked_valid(entities: Seq<Entity>, windows: Seq<TiledWindow>)
    requires
        all_valid(windows),
        forall|i: int| 0 <= i < entities.len() ==> size_of(windows, #[trigger] entities[i]) is Some,
    ensures
        forall|i: int| 0 <= i < entities.len() ==> asked_heights(entities, windows)[i] >= 0,
{
    assert forall|i: int| 0 <= i < entities.len() implies asked_heights(entities, windows)[i]
        >= 0 by {
        lemma_first_where_is(windows, |window: TiledWindow| window.entity == entities[i], 0);
        assert(size_of(windows, entities[i]) is Some);
    }
}

/// Every window of a stack that fits is asked to move and to be resized, from the top down: each
/// to the left edge of the column and to its width, the uppermost one to the top of the display
/// and every other one to where the one above it ends.
pub proof fn law_stack_asks_one_below_the_other(
    alive: Seq<Entity>,
    upper_left: i64,
    entities: Seq<Entity>,
    width: i64,
    display: Display,
    windows: Seq<TiledWindow>,
    i: int,
)
    requires
        display.wf(),
        all_valid(windows),
        0 <= i < entities.len(),
        forall|k: int| 0 <= k < entities.len() ==> alive.contains(#[trigger] entities[k]),
        stack_heights(entities, windows, display.bounds, display.menubar_height) is Some,
    ensures
        ({
            let asks = stacks(alive, upper_left, entities, width, display, windows);
            let heights = stack_heights(
                entities,
                windows,
                display.bounds,
                display.menubar_height,
            )->0;
            &&& asks.len() == 2 * entities.len()
            &&& move_asked(asks[2 * i]) matches Some((entity, marker)) && {
                &&& entity == entities[i]
                &&& marker.display_id == display.id
                &&& marker.origin.x == upper_left
                &&& i == 0 ==> marker.origin.y == 0
                &&& i > 0 ==> marker.origin.y == (move_asked(asks[2 * i - 2])->0).1.origin.y
                    + (size_asked(asks[2 * i - 1])->0).1.size.height
            }
            &&& size_asked(asks[2 * i + 1]) matches Some((entity, marker)) && {
                &&& entity == entities[i]
                &&& marker.display_id == display.id
                &&& marker.size.width == width
                &&& marker.size.height == heights[i]
            }
        }),
{
    let heights = stack_heights(entities, windows, display.bounds, display.menubar_height)->0;
    let f = |k: int| stacks_window(alive, entities, heights, upper_left, width, display.id, k);
    let n = entities.len() as int;
    assert forall|k: int| 0 <= k < n implies (#[trigger] f(k)).len() == 2 by {
        assert(alive.contains(entities[k]));
    }
    lemma_gather_pairs(n, f, i);
    assert(alive.contains(entities[i]));
    law_stack_tiles(entities, windows, display.bounds, display.menubar_height, i);
    if i > 0 {
        lemma_gather_pairs(n, f, i - 1);
        assert(alive.contains(entities[i - 1]));
        law_stack_tiles(entities, windows, display.bounds, display.menubar_height, i - 1);
    } else {
        assert(heights.take(0) =~= Seq::<int>::empty());
    }
}

/// Whatever a stack asks for concerns a window of it that is there, and keeps it within its
/// column: a window is asked to move to the left edge of the column, or to have its width. Nothing
/// is asked for if the stack does not fit.
pub proof fn law_stack_keeps_to_its_column(
    alive: Seq<Entity>,
    upper_left: i64,
    entities: Seq<Entity>,
    width: i64,
    display: Display,
    windows: Seq<TiledWindow>,
    effect: Effect,
)
    requires
        stacks(alive, upper_left, entities, width, display, windows).contains(effect),
    ensures
        stack_heights(entities, windows, display.bounds, display.menubar_height) is Some,
        move_asked(effect) is Some || size_asked(effect) is Some,
        move_asked(effect) matches Some((entity, marker)) ==> {
            &&& alive.contains(entity)
            &&& entities.contains(entity)
            &&& marker.origin.x == upper_left
            &&& marker.display_id == display.id
        },
        size_asked(effect) matches Some((entity, marker)) ==> {
            &&& alive.contains(entity)
            &&& entities.contains(entity)
            &&& marker.size.width == width
            &&& marker.display_id == display.id
        },
{
    let heights = stack_heights(entities, windows, display.bounds, display.menubar_height)->0;
    let f = |k: int| stacks_window(alive, entities, heights, upper_left, width, display.id, k);
    let i = lemma_gathered_below(entities.len() as int, f, effect);
    assert(f(i).contains(effect));
    let made = f(i);
    let k = choose|k: int| 0 <= k < made.len() && made[k] == effect;
    assert(entities[i] == entities[i]);
}

/// A window of a stack that fits is asked to move and to be resized if it is there, whether or not
/// the others are.
pub proof fn law_stack_misses_no_window(
    alive: Seq<Entity>,
    upper_left: i64,
    entities: Seq<Entity>,
    width: i64,
    display: Display,
    windows: Seq<TiledWindow>,
    i: int,
)
    requires
        display.wf(),
        all_valid(windows),
        0 <= i < entities.len(),
        alive.contains(entities[i]),
        stack_heights(entities, windows, display.bounds, display.menubar_height) is Some,
    ensures
        ({
            let asks = stacks(alive, upper_left, entities, width, display, windows);
            let everyone = stacks(entities, upper_left, entities, width, display, windows);
            &&& asks.contains(everyone[2 * i])
            &&& asks.contains(everyone[2 * i + 1])
        }),
{
    let heights = stack_heights(entities, windows, display.bounds, display.menubar_height)->0;
    let f = |k: int| stacks_window(alive, entities, heights, upper_left, width, display.id, k);
    let g = |k: int| stacks_window(entities, entities, heights, upper_left, width, display.id, k);
    let n = entities.len() as int;
    assert forall|k: int| 0 <= k < n implies (#[trigger] g(k)).len() == 2 by {
        assert(entities.contains(entities[k]));
    }
    lemma_gather_pairs(n, g, i);
    assert(entities.contains(entities[i]));
    assert(f(i) == g(i));
    let made = f(i);
    assert(made[0] == g(i)[0] && made[1] == g(i)[1]);
    lemma_gather_below_has(n, f, i, made[0]);
    lemma_gather_below_has(n, f, i, made[1]);
}

/// Columns take up positions from the left: one more position adds what the next column asks for
/// there, with the width of its uppermost window, and nothing if that window is not known.
pub proof fn law_column_takes_next_position(
    alive: Seq<Entity>,
    panels: Seq<Panel>,
    positions: Seq<int>,
    display: Display,
    windows: Seq<TiledWindow>,
    k: int,
)
    requires
        0 <= k < positions.len(),
    ensures
        arranges(alive, panels, Seq::empty(), display, windows) == Seq::<Effect>::empty(),
        arranges(alive, panels, positions.take(k + 1), display, windows) == arranges(
            alive,
            panels,
            positions.take(k),
            display,
            windows,
        ) + match size_of(windows, columns(panels)[k]) {
            Some(size) => stacks(
                alive,
                positions[k] as i64,
                panels[column_of(panels, columns(panels)[k])].windows(),
                size.width,
                display,
                windows,
            ),
            None => Seq::empty(),
        },
{
    let (more, fewer) = (positions.take(k + 1), positions.take(k));
    let f = |j: int| arranges_column(alive, panels, more, display, windows, j);
    let g = |j: int| arranges_column(alive, panels, fewer, display, windows, j);
    assert forall|j: int| 0 <= j < k implies #[trigger] f(j) == g(j) by {
        assert(more[j] == fewer[j]);
    }
    lemma_gather_below_same(k, f, g);
}

/// Whatever arranging asks for puts a window into line with its column: a window is asked to move
/// to the position of a column, or to have the width of its uppermost window, and stands in that
/// column.
pub proof fn law_arranged_windows_line_up(
    alive: Seq<Entity>,
    panels: Seq<Panel>,
    positions: Seq<int>,
    display: Display,
    windows: Seq<TiledWindow>,
    effect: Effect,
) -> (k: int)
    requires
        arranges(alive, panels, positions, display, windows).contains(effect),
    ensures
        0 <= k < positions.len(),
        size_of(windows, columns(panels)[k]) is Some,
        move_asked(effect) is Some || size_asked(effect) is Some,
        ({
            let column = panels[column_of(panels, columns(panels)[k])].windows();
            &&& move_asked(effect) matches Some((entity, marker)) ==> column.contains(entity)
                && marker.origin.x == positions[k] as i64
            &&& size_asked(effect) matches Some((entity, marker)) ==> column.contains(entity)
                && marker.size.width == size_of(windows, columns(panels)[k])->0.width
        }),
{
    let f = |j: int| arranges_column(alive, panels, positions, display, windows, j);
    let k = lemma_gathered_below(positions.len() as int, f, effect);
    assert(f(k).contains(effect));
    let top = columns(panels)[k];
    law_stack_keeps_to_its_column(
        alive,
        positions[k] as i64,
        panels[column_of(panels, top)].windows(),
        size_of(windows, top)->0.width,
        display,
        windows,
        effect,
    );
    k
}

} // verus!
