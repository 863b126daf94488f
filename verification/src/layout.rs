//! Where the windows of a workspace stand.

use vstd::prelude::*;

use crate::ecs::{RepositionMarker, ResizeMarker};
use crate::geometry::{Rect, Size, POINT};
#[allow(unused_imports)]
use crate::pane::{column_of, columns, law_column_is_added_behind, Panel};
use crate::pane::{Entity, WindowPane};
#[allow(unused_imports)]
use crate::sequences::{
    find_where, gather, law_gather_appends, lemma_first_where, lemma_gather_singles,
    lemma_gather_step,
};

verus! {

/// How much of a window stays in view when it is moved out of the way.
pub const WINDOW_HIDDEN_THRESHOLD: i64 = 10 * POINT;

/// No window of a stack is made less tall than this.
pub const MIN_WINDOW_HEIGHT: i64 = 200 * POINT;

/// A window of a workspace: where it is, and what it has been asked to become.
#[derive(Clone, Copy, Debug, PartialEq, Eq, Structural)]
pub struct TiledWindow {
    pub entity: Entity,
    pub frame: Rect,
    pub moving: Option<RepositionMarker>,
    pub resizing: Option<ResizeMarker>,
}

impl TiledWindow {
    /// The size that the window is going to have.
    pub open spec fn target(self) -> Size {
        match self.resizing {
            Some(marker) => marker.size,
            None => self.frame.size,
        }
    }

    /// The sizes are valid.
    pub open spec fn valid(self) -> bool {
        self.frame.valid() && self.target().valid()
    }

    /// The size that the window is going to have.
    pub fn target_size(&self) -> (size: Size)
        ensures
            size == self.target(),
    {
        match self.resizing {
            Some(marker) => marker.size,
            None => self.frame.size,
        }
    }
}

/// All windows are valid.
pub open spec fn all_valid(windows: Seq<TiledWindow>) -> bool {
    forall|i: int| 0 <= i < windows.len() ==> (#[trigger] windows[i]).valid()
}

/// The size that the window of an entity is going to have, if it has one.
pub open spec fn size_of(windows: Seq<TiledWindow>, entity: Entity) -> Option<Size> {
    match find_where(windows, |window: TiledWindow| window.entity == entity) {
        Some(window) => Some(window.target()),
        None => None,
    }
}

/// The size that the window of an entity is going to have, if it has one.
pub fn window_size(windows: &[TiledWindow], entity: Entity) -> (size: Option<Size>)
    ensures
        size == size_of(windows@, entity),
        all_valid(windows@) && size is Some ==> size->0.valid(),
{
    let ghost p = |window: TiledWindow| window.entity == entity;
    let mut i: usize = 0;
    while i < windows.len()
        invariant
            0 <= i <= windows@.len(),
            p == (|window: TiledWindow| window.entity == entity),
            forall|j: int| 0 <= j < i ==> !p(#[trigger] windows@[j]),
        decreases windows@.len() - i,
    {
        if windows[i].entity == entity {
            proof {
                lemma_first_where(windows@, p, 0, i as int);
            }
            return Some(windows[i].target_size());
        }
        i += 1;
    }
    proof {
        lemma_first_where(windows@, p, 0, windows@.len() as int);
    }
    None
}

/// The width of a window, if there is one, as a sequence of at most one item.
pub open spec fn width_if_known(windows: Seq<TiledWindow>, entity: Entity) -> Seq<i64> {
    match size_of(windows, entity) {
        Some(size) => seq![size.width],
        None => Seq::empty(),
    }
}

/// The widths of those columns whose uppermost window is known.
pub open spec fn known_widths(panels: Seq<Panel>, windows: Seq<TiledWindow>) -> Seq<i64> {
    gather(columns(panels), |entity: Entity| width_if_known(windows, entity))
}

/// The width of the first `k` columns together.
pub open spec fn extent(widths: Seq<i64>, k: int) -> int
    decreases k,
{
    if k <= 0 {
        0
    } else {
        extent(widths, k - 1) + widths[k - 1]
    }
}

/// The left edges of columns that stand side by side from zero on.
pub open spec fn left_edges(widths: Seq<i64>) -> Seq<int> {
    Seq::new(widths.len(), |k: int| extent(widths, k))
}

/// Where a column is put whose left edge belongs at `left`: there, but one that would be out of
/// view is put so that a strip of it stays at the edge of the display.
pub open spec fn shown_at(left: int, width: int, display_width: int) -> int {
    if left + width < 0 {
        WINDOW_HIDDEN_THRESHOLD - width
    } else if left > display_width - WINDOW_HIDDEN_THRESHOLD {
        display_width - WINDOW_HIDDEN_THRESHOLD
    } else {
        left
    }
}

/// Where the left edge of column `k` belongs if that of column `anchor` is at `x`.
pub open spec fn edge_from(widths: Seq<i64>, anchor: int, x: int, k: int) -> int {
    x + extent(widths, k) - extent(widths, anchor)
}

/// Where columns are put if the left edge of column `anchor` belongs at `x`.
pub open spec fn arranged(widths: Seq<i64>, anchor: int, x: int, display_width: int) -> Seq<int> {
    Seq::new(
        widths.len(),
        |k: int| shown_at(edge_from(widths, anchor, x, k), widths[k] as int, display_width),
    )
}

/// The widths of those columns whose uppermost window is known.
fn column_widths(active_panel: &WindowPane, windows: &[TiledWindow]) -> (widths: Vec<i64>)
    ensures
        widths@ == known_widths(active_panel@, windows@),
        all_valid(windows@) ==> forall|i: int| 0 <= i < widths@.len() ==> widths@[i] >= 0,
{
    let tops = active_panel.all_columns();
    let ghost f = |entity: Entity| width_if_known(windows@, entity);
    let mut widths: Vec<i64> = Vec::new();
    let mut i: usize = 0;
    while i < tops.len()
        invariant
            tops@ == columns(active_panel@),
            f == (|entity: Entity| width_if_known(windows@, entity)),
            0 <= i <= tops@.len(),
            widths@ == gather(tops@.take(i as int), f),
            all_valid(windows@) ==> forall|k: int| 0 <= k < widths@.len() ==> widths@[k] >= 0,
        decreases tops@.len() - i,
    {
        proof {
            lemma_gather_step(tops@, f, i as int);
        }
        if let Some(size) = window_size(windows, tops[i]) {
            widths.push(size.width);
        }
        i += 1;
        assert(widths@ =~= gather(tops@.take(i as int), f));
    }
    assert(tops@.take(i as int) =~= tops@);
    widths
}

/// There are no more known widths than columns.
pub proof fn lemma_known_widths_len(panels: Seq<Panel>, windows: Seq<TiledWindow>)
    ensures
        known_widths(panels, windows).len() <= columns(panels).len(),
{
    lemma_widths_len(columns(panels), windows);
}

proof fn lemma_widths_len(tops: Seq<Entity>, windows: Seq<TiledWindow>)
    ensures
        gather(tops, |entity: Entity| width_if_known(windows, entity)).len() <= tops.len(),
    decreases tops.len(),
{
    if tops.len() > 0 {
        lemma_widths_len(tops.drop_last(), windows);
    }
}

/// The sum of lengths is bounded by their number.
proof fn lemma_extent_bounded(widths: Seq<i64>, k: int)
    requires
        0 <= k <= widths.len(),
    ensures
        i64::MIN * k <= extent(widths, k) <= i64::MAX * k,
    decreases k,
{
    if k > 0 {
        lemma_extent_bounded(widths, k - 1);
    }
}

/// Columns further to the right begin further to the right.
proof fn lemma_extent_monotonic(widths: Seq<i64>, j: int, k: int)
    requires
        0 <= j <= k <= widths.len(),
        forall|i: int| 0 <= i < widths.len() ==> widths[i] >= 0,
    ensures
        extent(widths, j) <= extent(widths, k),
    decreases k - j,
{
    if j < k {
        lemma_extent_monotonic(widths, j, k - 1);
    }
}

/// The left edges of the columns of a workspace, side by side from zero on; columns whose
/// uppermost window is not known take no place.
pub fn absolute_positions(active_panel: &WindowPane, windows: &[TiledWindow]) -> (positions: Vec<
    i128,
>)
    ensures
        positions@.map_values(|x: i128| x as int) =~= left_edges(
            known_widths(active_panel@, windows@),
        ),
{
    let widths = column_widths(active_panel, windows);
    let n: usize = widths.len();
    let mut positions: Vec<i128> = Vec::new();
    let mut left_edge: i128 = 0;
    let mut i: usize = 0;
    while i < n
        invariant
            0 <= i <= n == widths@.len(),
            left_edge == extent(widths@, i as int),
            positions@.len() == i,
            forall|k: int| 0 <= k < i ==> #[trigger] positions@[k] == extent(widths@, k),
        decreases widths@.len() - i,
    {
        proof {
            lemma_extent_bounded(widths@, i + 1);
        }
        positions.push(left_edge);
        left_edge = left_edge + widths[i] as i128;
        i += 1;
    }
    positions
}

/// Where the columns of a workspace are put whose uppermost window is known, so that the one at
/// the position of the column in which `entity` stands begins at `current_x`.
///
/// `None` if `entity` does not stand in any column, or there are no more such columns than columns
/// before the one in which it stands.
pub fn calculate_positions(
    entity: Entity,
    current_x: i64,
    display_width: i64,
    active_panel: &WindowPane,
    windows: &[TiledWindow],
) -> (positions: Option<Vec<i64>>)
    requires
        all_valid(windows@),
        display_width >= 0,
    ensures
        ({
            let widths = known_widths(active_panel@, windows@);
            let anchor = column_of(active_panel@, entity);
            let found = anchor < active_panel@.len() && anchor < widths.len();
            match positions {
                Some(positions) => found && positions@.map_values(|x: i64| x as int) =~= arranged(
                    widths,
                    anchor,
                    current_x as int,
                    display_width as int,
                ),
                None => !found,
            }
        }),
{
    let widths = column_widths(active_panel, windows);
    let edges = absolute_positions(active_panel, windows);
    assert(edges@.map_values(|x: i128| x as int).len() == edges@.len());
    let anchor: usize = match active_panel.index_of(entity) {
        Some(index) => index,
        None => {
            return None;
        },
    };
    if anchor >= edges.len() {
        return None;
    }
    let ghost ws = widths@;
    proof {
        assert forall|k: int| 0 <= k < ws.len() implies #[trigger] edges@[k] == extent(ws, k) by {
            assert(edges@.map_values(|x: i128| x as int)[k] == left_edges(ws)[k]);
        }
        lemma_extent_bounded(ws, anchor as int);
        lemma_extent_monotonic(ws, 0, anchor as int);
    }
    let offset: i128 = current_x as i128 - edges[anchor];
    let mut positions: Vec<i64> = Vec::new();
    let mut i: usize = 0;
    while i < edges.len()
        invariant
            ws == widths@,
            ws == known_widths(active_panel@, windows@),
            forall|k: int| 0 <= k < ws.len() ==> ws[k] >= 0,
            edges@.len() == ws.len() <= usize::MAX,
            forall|k: int| 0 <= k < ws.len() ==> #[trigger] edges@[k] == extent(ws, k),
            0 <= i <= ws.len(),
            anchor < ws.len(),
            display_width >= 0,
            offset == current_x - extent(ws, anchor as int),
            positions@.len() == i,
            forall|k: int|
                0 <= k < i ==> #[trigger] positions@[k] == arranged(
                    ws,
                    anchor as int,
                    current_x as int,
                    display_width as int,
                )[k],
        decreases ws.len() - i,
    {
        proof {
            lemma_extent_bounded(ws, i as int);
            lemma_extent_bounded(ws, anchor as int);
            lemma_extent_monotonic(ws, 0, i as int);
            lemma_extent_monotonic(ws, 0, anchor as int);
        }
        let width: i64 = widths[i];
        let left_edge: i128 = edges[i] + offset;
        let position: i64 = if left_edge + (width as i128) < 0 {
            WINDOW_HIDDEN_THRESHOLD - width
        } else if left_edge > (display_width - WINDOW_HIDDEN_THRESHOLD) as i128 {
            display_width - WINDOW_HIDDEN_THRESHOLD
        } else {
            left_edge as i64
        };
        positions.push(position);
        i += 1;
    }
    Some(positions)
}

/// A column is in view: it is put where it belongs.
pub open spec fn in_view(left: int, width: int, display_width: int) -> bool {
    left + width >= 0 && left <= display_width - WINDOW_HIDDEN_THRESHOLD
}

/// Where every column holds a window and every uppermost window is known, there is a position for
/// every column, reckoned with its own width.
pub proof fn law_every_column_has_a_place(
    panels: Seq<Panel>,
    windows: Seq<TiledWindow>,
    anchor: int,
    x: int,
    display_width: int,
    k: int,
)
    requires
        0 <= k < panels.len(),
        forall|i: int|
            0 <= i < panels.len() ==> (#[trigger] panels[i]).windows().len() > 0 && size_of(
                windows,
                panels[i].windows()[0],
            ) is Some,
    ensures
        ({
            let widths = known_widths(panels, windows);
            &&& arranged(widths, anchor, x, display_width).len() == panels.len()
            &&& columns(panels)[k] == panels[k].windows()[0]
            &&& widths[k] == size_of(windows, panels[k].windows()[0])->0.width
        }),
{
    let f = |panel: Panel| panel.topmost();
    let g = |entity: Entity| width_if_known(windows, entity);
    lemma_gather_singles(panels, f);
    let tops = columns(panels);
    assert forall|i: int| 0 <= i < tops.len() implies g(#[trigger] tops[i]).len() == 1 by {
        assert(tops[i] == panels[i].windows()[0]);
    }
    lemma_gather_singles(tops, g);
}

/// The column around which the others are arranged stays where it is, if it is in view there.
pub proof fn law_anchor_stays(widths: Seq<i64>, anchor: int, x: int, display_width: int)
    requires
        0 <= anchor < widths.len(),
        in_view(x, widths[anchor] as int, display_width),
    ensures
        arranged(widths, anchor, x, display_width)[anchor] == x,
{
}

/// Columns in view stand side by side: neighbours neither overlap nor leave a gap.
pub proof fn law_columns_adjoin(
    widths: Seq<i64>,
    anchor: int,
    x: int,
    display_width: int,
    k: int,
)
    requires
        0 <= k < widths.len() - 1,
        in_view(edge_from(widths, anchor, x, k), widths[k] as int, display_width),
        in_view(edge_from(widths, anchor, x, k + 1), widths[k + 1] as int, display_width),
    ensures
        arranged(widths, anchor, x, display_width)[k + 1] == arranged(
            widths,
            anchor,
            x,
            display_width,
        )[k] + widths[k],
{
}

/// No column is out of reach: on a display that is wide enough for two strips, none ends to the
/// left of the display, and each begins at least a strip before its right edge.
pub proof fn law_columns_reachable(
    widths: Seq<i64>,
    anchor: int,
    x: int,
    display_width: int,
    k: int,
)
    requires
        0 <= k < widths.len(),
        widths[k] >= 0,
        display_width >= 2 * WINDOW_HIDDEN_THRESHOLD,
    ensures
        arranged(widths, anchor, x, display_width)[k] + widths[k] >= 0,
        arranged(widths, anchor, x, display_width)[k] <= display_width - WINDOW_HIDDEN_THRESHOLD,
{
}

/// A column that would be out of view shows exactly a strip at its side of the display: at the
/// left edge if it belongs to the left of the display, and at the right edge if it belongs beyond
/// the strip there.
pub proof fn law_hidden_shows_strip(
    widths: Seq<i64>,
    anchor: int,
    x: int,
    display_width: int,
    k: int,
)
    requires
        0 <= k < widths.len(),
        !in_view(edge_from(widths, anchor, x, k), widths[k] as int, display_width),
    ensures
        ({
            let at = arranged(widths, anchor, x, display_width)[k];
            let left = edge_from(widths, anchor, x, k);
            if left + widths[k] < 0 {
                at + widths[k] == 10 * 65_536
            } else {
                left > display_width - 10 * 65_536 && display_width - at == 10 * 65_536
            }
        }),
{
}

/// It does not matter around which of the columns in view the others are arranged: arranging
/// again around another one, where it has been put, changes nothing.
pub proof fn law_arrangement_settles(
    widths: Seq<i64>,
    anchor: int,
    x: int,
    display_width: int,
    other: int,
)
    requires
        0 <= other < widths.len(),
        in_view(edge_from(widths, anchor, x, other), widths[other] as int, display_width),
    ensures
        arranged(
            widths,
            other,
            arranged(widths, anchor, x, display_width)[other],
            display_width,
        ) == arranged(widths, anchor, x, display_width),
{
    let once = arranged(widths, anchor, x, display_width);
    let again = arranged(widths, other, once[other], display_width);
    assert forall|k: int| 0 <= k < widths.len() implies again[k] == once[k] by {
        assert(edge_from(widths, other, once[other], k) == edge_from(widths, anchor, x, k));
    }
    assert(again =~= once);
}

/// Arranging keeps the columns in order: where a column belongs is never to the right of where
/// one to its right belongs.
pub proof fn law_columns_in_order(widths: Seq<i64>, anchor: int, x: int, j: int, k: int)
    requires
        0 <= j <= k <= widths.len(),
        forall|i: int| 0 <= i < widths.len() ==> widths[i] >= 0,
    ensures
        edge_from(widths, anchor, x, j) <= edge_from(widths, anchor, x, k),
{
    lemma_extent_monotonic(widths, j, k);
}

/// A column belongs beside its neighbours: the one around which the others are arranged belongs
/// where it is, and every other begins where the one to its left ends.
pub proof fn law_columns_belong_side_by_side(widths: Seq<i64>, anchor: int, x: int, k: int)
    requires
        0 <= k < widths.len(),
    ensures
        edge_from(widths, anchor, x, anchor) == x,
        edge_from(widths, anchor, x, k + 1) == edge_from(widths, anchor, x, k) + widths[k],
{
}

/// A column is put where it belongs, unless it would be out of view there: then a strip of 10
/// points is in view, at the left edge of the display for a column that belongs to the left of it
/// and at the right edge for one that belongs to the right.
pub proof fn law_column_is_put_at_its_side(
    widths: Seq<i64>,
    anchor: int,
    x: int,
    display_width: int,
    k: int,
)
    requires
        0 <= k < widths.len(),
    ensures
        arranged(widths, anchor, x, display_width).len() == widths.len(),
        ({
            let left = edge_from(widths, anchor, x, k);
            let at = arranged(widths, anchor, x, display_width)[k];
            &&& left + widths[k] < 0 ==> at + widths[k] == 655_360
            &&& left + widths[k] >= 0 && left > display_width - 655_360 ==> at == display_width
                - 655_360
            &&& left + widths[k] >= 0 && left <= display_width - 655_360 ==> at == left
        }),
{
}

/// Columns are hidden in order: all to the left of one that is hidden at the left edge are hidden
/// there too, and all to the right of one that is hidden at the right edge are hidden there too.
pub proof fn law_hidden_in_order(
    widths: Seq<i64>,
    anchor: int,
    x: int,
    display_width: int,
    j: int,
    k: int,
)
    requires
        0 <= j <= k < widths.len(),
        forall|i: int| 0 <= i < widths.len() ==> widths[i] >= 0,
        display_width >= 655_360,
    ensures
        ({
            let at = arranged(widths, anchor, x, display_width);
            &&& edge_from(widths, anchor, x, k) + widths[k] < 0 ==> at[j] + widths[j] == 655_360
            &&& edge_from(widths, anchor, x, j) > display_width - 655_360 ==> at[k] == display_width
                - 655_360
        }),
{
    lemma_extent_monotonic(widths, j, k);
    if j < k {
        lemma_extent_monotonic(widths, j + 1, k);
    }
}

/// Columns follow the one around which they are arranged: if that one is moved, those that are in
/// view before and after are moved as far, in the same direction.
pub proof fn law_columns_follow(
    widths: Seq<i64>,
    anchor: int,
    x: int,
    y: int,
    display_width: int,
    k: int,
)
    requires
        0 <= k < widths.len(),
        in_view(edge_from(widths, anchor, x, k), widths[k] as int, display_width),
        in_view(edge_from(widths, anchor, y, k), widths[k] as int, display_width),
    ensures
        arranged(widths, anchor, y, display_width)[k] - arranged(
            widths,
            anchor,
            x,
            display_width,
        )[k] == y - x,
{
}

/// Columns that stand side by side from zero on begin where the one before ends.
pub proof fn law_left_edges_adjoin(widths: Seq<i64>, k: int)
    requires
        0 <= k < widths.len(),
    ensures
        left_edges(widths).len() == widths.len(),
        left_edges(widths)[0] == 0,
        k + 1 < widths.len() ==> left_edges(widths)[k + 1] == left_edges(widths)[k] + widths[k],
{
}

/// The size of a window is the one that it has been asked to have, or else the one that it has.
pub proof fn law_size_of_window(windows: Seq<TiledWindow>, entity: Entity, i: int)
    requires
        0 <= i <= windows.len(),
        forall|j: int| 0 <= j < i ==> (#[trigger] windows[j]).entity != entity,
        i < windows.len() ==> windows[i].entity == entity,
    ensures
        size_of(windows, entity) == if i < windows.len() {
            match windows[i].resizing {
                Some(marker) => Some(marker.size),
                None => Some(windows[i].frame.size),
            }
        } else {
            None
        },
{
    lemma_first_where(windows, |window: TiledWindow| window.entity == entity, 0, i);
}

/// One more column on the right adds its width behind all others: that of its uppermost window,
/// if it holds one that is known.
pub proof fn law_width_is_added_behind(
    panels: Seq<Panel>,
    panel: Panel,
    windows: Seq<TiledWindow>,
)
    ensures
        known_widths(Seq::<Panel>::empty(), windows) == Seq::<i64>::empty(),
        known_widths(panels.push(panel), windows) == if panel.windows().len() > 0 && size_of(
            windows,
            panel.windows()[0],
        ) is Some {
            known_widths(panels, windows).push(size_of(windows, panel.windows()[0])->0.width)
        } else {
            known_widths(panels, windows)
        },
{
    law_column_is_added_behind(panels, panel);
    if panel.windows().len() > 0 {
        law_gather_appends(
            columns(panels),
            |entity: Entity| width_if_known(windows, entity),
            panel.windows()[0],
        );
        let before = known_widths(panels, windows);
        assert(before + Seq::<i64>::empty() =~= before);
        assert(size_of(windows, panel.windows()[0]) is Some ==> before + seq![
            size_of(windows, panel.windows()[0])->0.width,
        ] =~= before.push(size_of(windows, panel.windows()[0])->0.width));
    }
}

} // verus!
