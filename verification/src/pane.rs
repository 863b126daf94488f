//! The columns of a workspace.

use vstd::prelude::*;

#[allow(unused_imports)]
use crate::sequences::{
    first_where, gather, lemma_first_where, lemma_first_where_is, lemma_gather_at,
    lemma_gather_prefix, lemma_gather_step, lemma_gathered_of,
};

verus! {

/// The identity of a window, a process, an application or a display.
pub type Entity = u64;

/// One column of a workspace.
#[derive(Debug)]
pub enum Panel {
    /// A window that has the column to itself.
    Single(Entity),
    /// Windows that stand one below the other.
    Stack(Vec<Entity>),
}

impl Panel {
    /// The windows of the column, from the top down.
    pub open spec fn windows(self) -> Seq<Entity> {
        match self {
            Panel::Single(entity) => seq![entity],
            Panel::Stack(stack) => stack@,
        }
    }

    /// A column holds no more windows than 32 bits can count.
    pub open spec fn wf(self) -> bool {
        self.windows().len() <= u32::MAX
    }

    /// The uppermost window of the column, as a sequence of at most one item: none for a stack
    /// that holds none.
    pub open spec fn topmost(self) -> Seq<Entity> {
        if self.windows().len() > 0 {
            seq![self.windows()[0]]
        } else {
            Seq::empty()
        }
    }

    /// The uppermost window of the column; `None` for a stack that holds none.
    pub fn top(&self) -> (window: Option<Entity>)
        ensures
            window == if self.windows().len() > 0 {
                Some(self.windows()[0])
            } else {
                None
            },
    {
        match self {
            Panel::Single(entity) => Some(*entity),
            Panel::Stack(stack) => if stack.len() > 0 {
                Some(stack[0])
            } else {
                None
            },
        }
    }

    /// Whether `entity` stands in the column.
    pub fn contains(&self, entity: Entity) -> (found: bool)
        ensures
            found == self.windows().contains(entity),
    {
        match self {
            Panel::Single(single) => {
                assert(self.windows()[0] == *single);
                *single == entity
            },
            Panel::Stack(stack) => {
                let mut i: usize = 0;
                while i < stack.len()
                    invariant
                        self.windows() == stack@,
                        0 <= i <= stack@.len(),
                        forall|j: int| 0 <= j < i ==> stack@[j] != entity,
                    decreases stack@.len() - i,
                {
                    if stack[i] == entity {
                        assert(self.windows()[i as int] == entity);
                        return true;
                    }
                    i += 1;
                }
                false
            },
        }
    }

    /// The windows of the column, from the top down.
    pub fn to_windows(&self) -> (windows: Vec<Entity>)
        ensures
            windows@ == self.windows(),
    {
        let mut windows: Vec<Entity> = Vec::new();
        match self {
            Panel::Single(entity) => {
                windows.push(*entity);
                assert(windows@ =~= self.windows());
            },
            Panel::Stack(stack) => {
                let mut i: usize = 0;
                while i < stack.len()
                    invariant
                        0 <= i <= stack@.len(),
                        windows@ == stack@.take(i as int),
                    decreases stack@.len() - i,
                {
                    windows.push(stack[i]);
                    i += 1;
                    assert(windows@ =~= stack@.take(i as int));
                }
                assert(stack@.take(i as int) =~= stack@);
            },
        }
        windows
    }
}

/// The columns of a workspace, from left to right.
#[derive(Debug)]
pub struct WindowPane {
    panels: Vec<Panel>,
}

impl View for WindowPane {
    type V = Seq<Panel>;

    closed spec fn view(&self) -> Seq<Panel> {
        self.panels@
    }
}

/// The uppermost windows of columns; stacks that hold no window are passed over.
pub open spec fn columns(panels: Seq<Panel>) -> Seq<Entity> {
    gather(panels, |panel: Panel| panel.topmost())
}

/// All windows of columns, from left to right and from the top down.
pub open spec fn windows_of(panels: Seq<Panel>) -> Seq<Entity> {
    gather(panels, |panel: Panel| panel.windows())
}

/// The position of the first column in which `entity` stands; the number of columns if there is
/// none.
pub open spec fn column_of(panels: Seq<Panel>, entity: Entity) -> int {
    first_where(panels, |panel: Panel| panel.windows().contains(entity), 0)
}

/// The uppermost window of the column beside the one in which `entity` stands, `step` to the
/// right; stacks that hold no window are passed over.
pub open spec fn neighbour(panels: Seq<Panel>, entity: Entity, step: int) -> Option<Entity> {
    let index = column_of(panels, entity);
    let beside = columns(panels.take(index)).len() + step;
    if index < panels.len() && 0 <= beside < columns(panels).len() {
        Some(columns(panels)[beside])
    } else {
        None
    }
}

/// The uppermost window of a column stands in a column.
pub proof fn lemma_top_has_column(panels: Seq<Panel>, k: int)
    requires
        0 <= k < columns(panels).len(),
    ensures
        0 <= column_of(panels, columns(panels)[k]) < panels.len(),
{
    let top = columns(panels)[k];
    let i = lemma_gathered_of(panels, |panel: Panel| panel.topmost(), k);
    let p = |panel: Panel| panel.windows().contains(top);
    lemma_first_where_is(panels, p, 0);
    assert(panels[i].topmost().contains(top));
    assert(panels[i].windows()[0] == top);
    assert(p(panels[i]));
}

impl WindowPane {
    /// Every column is well formed.
    pub open spec fn wf(self) -> bool {
        forall|i: int| 0 <= i < self@.len() ==> (#[trigger] self@[i]).wf()
    }

    /// A workspace without windows.
    pub fn new() -> (pane: WindowPane)
        ensures
            pane.wf(),
            pane@ == Seq::<Panel>::empty(),
    {
        WindowPane { panels: Vec::new() }
    }

    /// How many columns there are.
    pub fn len(&self) -> (n: usize)
        ensures
            n == self@.len(),
    {
        self.panels.len()
    }

    /// Puts a window into a column of its own, behind the last one.
    pub fn append(&mut self, entity: Entity)
        ensures
            final(self)@ == old(self)@.push(Panel::Single(entity)),
            old(self).wf() ==> final(self).wf(),
    {
        self.append_panel(Panel::Single(entity));
    }

    /// Puts a column behind the last one.
    pub fn append_panel(&mut self, panel: Panel)
        ensures
            final(self)@ == old(self)@.push(panel),
            old(self).wf() && panel.wf() ==> final(self).wf(),
    {
        self.panels.push(panel);
        proof {
            let (before, after) = (old(self)@, self@);
            assert forall|i: int|
                0 <= i < after.len() && old(self).wf() && panel.wf() implies (#[trigger] after[i]).wf() by {
                if i < before.len() {
                    assert(before[i].wf());
                }
            }
        }
    }

    /// The column at a position.
    pub fn get(&self, index: usize) -> (panel: Option<&Panel>)
        ensures
            match panel {
                Some(panel) => index < self@.len() && *panel == self@[index as int],
                None => index >= self@.len(),
            },
    {
        if index < self.panels.len() {
            Some(&self.panels[index])
        } else {
            None
        }
    }

    /// The position of the first column in which `entity` stands.
    pub fn index_of(&self, entity: Entity) -> (index: Option<usize>)
        ensures
            match index {
                Some(index) => index < self@.len() && index == column_of(self@, entity),
                None => column_of(self@, entity) == self@.len(),
            },
    {
        let mut i: usize = 0;
        while i < self.panels.len()
            invariant
                0 <= i <= self@.len(),
                forall|j: int| 0 <= j < i ==> !(#[trigger] self@[j]).windows().contains(entity),
            decreases self@.len() - i,
        {
            if self.panels[i].contains(entity) {
                proof {
                    lemma_first_where(
                        self@,
                        |panel: Panel| panel.windows().contains(entity),
                        0,
                        i as int,
                    );
                }
                return Some(i);
            }
            i += 1;
        }
        proof {
            lemma_first_where(
                self@,
                |panel: Panel| panel.windows().contains(entity),
                0,
                self@.len() as int,
            );
        }
        None
    }

    /// The uppermost windows of the first `n` columns, from left to right.
    fn tops(&self, n: usize) -> (tops: Vec<Entity>)
        requires
            n <= self@.len(),
        ensures
            tops@ == columns(self@.take(n as int)),
    {
        let mut tops: Vec<Entity> = Vec::new();
        let mut i: usize = 0;
        while i < n
            invariant
                0 <= i <= n <= self@.len(),
                tops@ == columns(self@.take(i as int)),
            decreases n - i,
        {
            proof {
                lemma_gather_step(self@, |panel: Panel| panel.topmost(), i as int);
            }
            if let Some(top) = self.panels[i].top() {
                tops.push(top);
            }
            i += 1;
            assert(tops@ =~= columns(self@.take(i as int)));
        }
        tops
    }

    /// The uppermost windows of all columns, from left to right; stacks that hold no window are
    /// passed over.
    pub fn all_columns(&self) -> (tops: Vec<Entity>)
        ensures
            tops@ == columns(self@),
    {
        assert(self@.take(self@.len() as int) =~= self@);
        self.tops(self.panels.len())
    }

    /// The uppermost window of the leftmost column that holds one.
    pub fn first_window(&self) -> (window: Option<Entity>)
        ensures
            window == if columns(self@).len() > 0 {
                Some(columns(self@)[0])
            } else {
                None
            },
    {
        let tops = self.all_columns();
        if tops.len() > 0 {
            Some(tops[0])
        } else {
            None
        }
    }

    /// All windows, column by column from left to right, and each column from the top down.
    pub fn all_windows(&self) -> (windows: Vec<Entity>)
        ensures
            windows@ == windows_of(self@),
    {
        let mut windows: Vec<Entity> = Vec::new();
        let mut i: usize = 0;
        while i < self.panels.len()
            invariant
                0 <= i <= self@.len(),
                windows@ == windows_of(self@.take(i as int)),
            decreases self@.len() - i,
        {
            let mut column = self.panels[i].to_windows();
            windows.append(&mut column);
            proof {
                lemma_gather_step(self@, |panel: Panel| panel.windows(), i as int);
            }
            i += 1;
        }
        assert(self@.take(i as int) =~= self@);
        windows
    }

    /// The uppermost window of the column to the right of the one in which `entity` stands;
    /// stacks that hold no window are passed over.
    pub fn right_neighbour(&self, entity: Entity) -> (window: Option<Entity>)
        ensures
            window == neighbour(self@, entity, 1),
    {
        match self.index_of(entity) {
            Some(index) => {
                let place: usize = self.tops(index).len();
                let tops = self.all_columns();
                if place < tops.len() && place + 1 < tops.len() {
                    Some(tops[place + 1])
                } else {
                    None
                }
            },
            None => None,
        }
    }

    /// The uppermost window of the column to the left of the one in which `entity` stands; stacks
    /// that hold no window are passed over.
    pub fn left_neighbour(&self, entity: Entity) -> (window: Option<Entity>)
        ensures
            window == neighbour(self@, entity, -1),
    {
        match self.index_of(entity) {
            Some(index) => {
                let tops = self.tops(index);
                proof {
                    lemma_gather_prefix(self@, |panel: Panel| panel.topmost(), index as int);
                }
                if tops.len() > 0 {
                    Some(tops[tops.len() - 1])
                } else {
                    None
                }
            },
            None => None,
        }
    }
}

/// The window to the right of a window and the window to the left of it are inverse: whoever goes
/// to a column's right neighbour and then to the left comes back to the top of that column, if the
/// neighbour stands in no other column before its own.
pub proof fn law_neighbours_are_mutual(panels: Seq<Panel>, entity: Entity, i: int, j: int)
    requires
        0 <= i < j < panels.len(),
        column_of(panels, entity) == i,
        panels[j].windows().len() > 0,
        column_of(panels, panels[j].windows()[0]) == j,
        forall|k: int| i < k < j ==> (#[trigger] panels[k]).windows().len() == 0,
    ensures
        neighbour(panels, entity, 1) == Some(panels[j].windows()[0]),
        neighbour(panels, panels[j].windows()[0], -1) == Some(panels[i].windows()[0]),
{
    let f = |panel: Panel| panel.topmost();
    lemma_first_where_is(panels, |panel: Panel| panel.windows().contains(entity), 0);
    lemma_gather_at(panels, f, i, 0);
    lemma_gather_at(panels, f, j, 0);
    lemma_nothing_between(panels, i + 1, j);
    lemma_gather_step(panels, f, i);
}

/// Stacks that hold no window add no columns.
proof fn lemma_nothing_between(panels: Seq<Panel>, i: int, j: int)
    requires
        0 <= i <= j <= panels.len(),
        forall|k: int| i <= k < j ==> (#[trigger] panels[k]).windows().len() == 0,
    ensures
        columns(panels.take(j)) == columns(panels.take(i)),
    decreases j - i,
{
    if i < j {
        lemma_nothing_between(panels, i, j - 1);
        lemma_gather_step(panels, |panel: Panel| panel.topmost(), j - 1);
        assert(columns(panels.take(j)) =~= columns(panels.take(i)));
    }
}

/// A window that has a column to itself is the only one in it, and a stack holds its windows.
pub proof fn law_windows_of_a_column(entity: Entity, stack: Vec<Entity>)
    ensures
        Panel::Single(entity).windows() == seq![entity],
        Panel::Stack(stack).windows() == stack@,
{
}

/// A window stands in the first column that holds it.
pub proof fn law_column_of(panels: Seq<Panel>, entity: Entity, i: int)
    requires
        0 <= i <= panels.len(),
        forall|j: int| 0 <= j < i ==> !(#[trigger] panels[j]).windows().contains(entity),
        i < panels.len() ==> panels[i].windows().contains(entity),
    ensures
        column_of(panels, entity) == i,
{
    lemma_first_where(panels, |panel: Panel| panel.windows().contains(entity), 0, i);
}

/// One more column on the right adds its uppermost window to the columns, if it holds one, and its
/// windows to the windows, behind all others.
pub proof fn law_column_is_added_behind(panels: Seq<Panel>, panel: Panel)
    ensures
        columns(Seq::<Panel>::empty()) == Seq::<Entity>::empty(),
        windows_of(Seq::<Panel>::empty()) == Seq::<Entity>::empty(),
        columns(panels.push(panel)) == if panel.windows().len() > 0 {
            columns(panels).push(panel.windows()[0])
        } else {
            columns(panels)
        },
        windows_of(panels.push(panel)) == windows_of(panels) + panel.windows(),
{
    assert(panels.push(panel).drop_last() =~= panels);
    assert(columns(panels.push(panel)) =~= if panel.windows().len() > 0 {
        columns(panels).push(panel.windows()[0])
    } else {
        columns(panels)
    });
}

/// A window has no neighbour on a side where no column holds a window, nor has one that stands in
/// no column.
pub proof fn law_no_neighbour(panels: Seq<Panel>, entity: Entity, i: int)
    requires
        0 <= i <= panels.len(),
        column_of(panels, entity) == i,
    ensures
        (forall|k: int| i < k < panels.len() ==> (#[trigger] panels[k]).windows().len() == 0)
            ==> neighbour(panels, entity, 1) is None,
        (forall|k: int| 0 <= k < i ==> (#[trigger] panels[k]).windows().len() == 0) ==> neighbour(
            panels,
            entity,
            -1,
        ) is None,
        i == panels.len() ==> neighbour(panels, entity, 1) is None && neighbour(
            panels,
            entity,
            -1,
        ) is None,
{
    if i < panels.len() {
        if forall|k: int| i < k < panels.len() ==> (#[trigger] panels[k]).windows().len() == 0 {
            lemma_nothing_between(panels, i + 1, panels.len() as int);
            assert(panels.take(panels.len() as int) =~= panels);
            lemma_gather_step(panels, |panel: Panel| panel.topmost(), i);
        }
        if forall|k: int| 0 <= k < i ==> (#[trigger] panels[k]).windows().len() == 0 {
            lemma_nothing_between(panels, 0, i);
            assert(columns(panels.take(0)).len() == 0);
        }
    }
}

/// The neighbour of a window is the uppermost window of the next column on that side that holds
/// one: `i` is the column in which the window stands, and `j` that other one.
pub proof fn law_neighbour_beside(panels: Seq<Panel>, entity: Entity, i: int, j: int)
    requires
        0 <= i < panels.len(),
        0 <= j < panels.len(),
        column_of(panels, entity) == i,
        panels[j].windows().len() > 0,
        forall|k: int| i < k < j || j < k < i ==> (#[trigger] panels[k]).windows().len() == 0,
    ensures
        i < j ==> neighbour(panels, entity, 1) == Some(panels[j].windows()[0]),
        j < i ==> neighbour(panels, entity, -1) == Some(panels[j].windows()[0]),
{
    let f = |panel: Panel| panel.topmost();
    lemma_first_where_is(panels, |panel: Panel| panel.windows().contains(entity), 0);
    lemma_gather_at(panels, f, i, 0);
    lemma_gather_at(panels, f, j, 0);
    lemma_gather_step(panels, f, i);
    lemma_gather_step(panels, f, j);
    if i < j {
        lemma_nothing_between(panels, i + 1, j);
    } else if j < i {
        lemma_nothing_between(panels, j + 1, i);
    }
}

/// The first of the columns is the leftmost one that holds a window.
pub proof fn law_first_column(panels: Seq<Panel>, j: int)
    requires
        0 <= j <= panels.len(),
        forall|k: int| 0 <= k < j ==> (#[trigger] panels[k]).windows().len() == 0,
        j < panels.len() ==> panels[j].windows().len() > 0,
    ensures
        j < panels.len() ==> columns(panels).len() > 0 && columns(panels)[0]
            == panels[j].windows()[0],
        j == panels.len() ==> columns(panels).len() == 0,
{
    lemma_nothing_between(panels, 0, j);
    assert(columns(panels.take(0)).len() == 0);
    if j < panels.len() {
        lemma_gather_at(panels, |panel: Panel| panel.topmost(), j, 0);
    } else {
        assert(panels.take(j) =~= panels);
    }
}

} // verus!
