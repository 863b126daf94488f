//! Displays and their workspaces.

use vstd::prelude::*;

use crate::geometry::Rect;
use crate::pane::WindowPane;
use crate::platform::DisplayID;
#[allow(unused_imports)]
use crate::sequences::{first_where, lemma_first_where, lemma_first_where_is};

verus! {

/// A workspace: its number and the columns on it.
#[derive(Debug)]
pub struct Space {
    pub id: u64,
    pub pane: WindowPane,
}

/// A display and the workspaces on it.
#[derive(Debug)]
pub struct Display {
    pub id: DisplayID,
    pub spaces: Vec<Space>,
    pub bounds: Rect,
    pub menubar_height: i64,
}

/// The position of the workspace with a number; the number of workspaces if there is none.
pub open spec fn space_index(spaces: Seq<Space>, id: u64) -> int {
    first_where(spaces, |space: Space| space.id == id, 0)
}

impl Display {
    /// The lengths are valid, no number names two workspaces, and every workspace is well formed.
    pub open spec fn wf(self) -> bool {
        &&& self.bounds.valid()
        &&& self.menubar_height >= 0
        &&& forall|i: int| 0 <= i < self.spaces@.len() ==> (#[trigger] self.spaces@[i]).pane.wf()
        &&& forall|i: int, j: int|
            0 <= i < j < self.spaces@.len() ==> (#[trigger] self.spaces@[i]).id != (
            #[trigger] self.spaces@[j]).id
    }

    /// The numbers of the workspaces.
    pub open spec fn space_ids(self) -> Seq<u64> {
        self.spaces@.map_values(|space: Space| space.id)
    }

    /// A display whose workspaces hold no windows yet. A number that is listed twice names one
    /// workspace.
    pub fn new(id: DisplayID, spaces: Vec<u64>, bounds: Rect, menubar_height: i64) -> (display:
        Display)
        requires
            bounds.valid(),
            menubar_height >= 0,
        ensures
            display.wf(),
            display.id == id,
            display.bounds == bounds,
            display.menubar_height == menubar_height,
            forall|space: u64| #[trigger]
                display.space_ids().contains(space) == spaces@.contains(space),
            spaces@.no_duplicates() ==> display.space_ids() == spaces@,
            forall|i: int|
                0 <= i < display.spaces@.len() ==> (#[trigger] display.spaces@[i]).pane@.len() == 0,
    {
        let mut display = Display { id, spaces: Vec::new(), bounds, menubar_height };
        let mut i: usize = 0;
        while i < spaces.len()
            invariant
                0 <= i <= spaces@.len(),
                display.wf(),
                display.id == id,
                display.bounds == bounds,
                display.menubar_height == menubar_height,
                forall|k: int|
                    0 <= k < display.spaces@.len() ==> spaces@.contains(
                        (#[trigger] display.spaces@[k]).id,
                    ) && display.spaces@[k].pane@.len() == 0,
                forall|k: int|
                    0 <= k < i ==> space_index(display.spaces@, #[trigger] spaces@[k])
                        < display.spaces@.len(),
                spaces@.no_duplicates() ==> display.space_ids() == spaces@.take(i as int),
            decreases spaces@.len() - i,
        {
            let ghost ids = display.space_ids();
            let position = display.space_position(spaces[i]);
            proof {
                if spaces@.no_duplicates() && position is Some {
                    let k = position->0 as int;
                    assert(ids[k] == spaces@[i as int]);
                    assert(ids[k] == spaces@[k]);
                    assert(false);
                }
            }
            if position.is_none() {
                let ghost before = display.spaces@;
                let space = Space { id: spaces[i], pane: WindowPane::new() };
                display.spaces.push(space);
                proof {
                    let after = display.spaces@;
                    let wanted = spaces@[i as int];
                    lemma_first_where_is(before, |s: Space| s.id == wanted, 0);
                    assert(forall|k: int| 0 <= k < before.len() ==> (#[trigger] after[k]) == before[k]);
                    assert forall|k: int| 0 <= k <= i implies space_index(
                        after,
                        #[trigger] spaces@[k],
                    ) < after.len() by {
                        let p = |s: Space| s.id == spaces@[k];
                        lemma_first_where_is(after, p, 0);
                        if k < i {
                            lemma_first_where_is(before, p, 0);
                            let at = first_where(before, p, 0);
                            assert(p(after[at]));
                        } else {
                            assert(p(after[before.len() as int]));
                        }
                    }
                }
            }
            i += 1;
            assert(spaces@.no_duplicates() ==> display.space_ids() =~= spaces@.take(i as int));
        }
        assert(spaces@.take(i as int) =~= spaces@);
        proof {
            assert forall|space: u64| #[trigger]
                display.space_ids().contains(space) == spaces@.contains(space) by {
                let p = |s: Space| s.id == space;
                lemma_first_where_is(display.spaces@, p, 0);
                let at = first_where(display.spaces@, p, 0);
                if spaces@.contains(space) {
                    let k = choose|k: int| 0 <= k < spaces@.len() && spaces@[k] == space;
                    assert(space_index(display.spaces@, spaces@[k]) < display.spaces@.len());
                    assert(display.space_ids()[at] == space);
                }
                if display.space_ids().contains(space) {
                    let k = choose|k: int|
                        0 <= k < display.space_ids().len() && display.space_ids()[k] == space;
                    assert(display.spaces@[k].id == space);
                }
            }
        }
        display
    }

    /// The position of the workspace with a number.
    pub fn space_position(&self, space_id: u64) -> (index: Option<usize>)
        ensures
            match index {
                Some(index) => index < self.spaces@.len() && index == space_index(
                    self.spaces@,
                    space_id,
                ) && self.spaces@[index as int].id == space_id,
                None => space_index(self.spaces@, space_id) == self.spaces@.len(),
            },
    {
        let mut i: usize = 0;
        while i < self.spaces.len()
            invariant
                0 <= i <= self.spaces@.len(),
                forall|j: int| 0 <= j < i ==> (#[trigger] self.spaces@[j]).id != space_id,
            decreases self.spaces@.len() - i,
        {
            if self.spaces[i].id == space_id {
                proof {
                    lemma_first_where(self.spaces@, |s: Space| s.id == space_id, 0, i as int);
                }
                return Some(i);
            }
            i += 1;
        }
        proof {
            lemma_first_where(
                self.spaces@,
                |s: Space| s.id == space_id,
                0,
                self.spaces@.len() as int,
            );
        }
        None
    }

    /// The columns of the workspace with a number.
    pub fn active_panel(&self, space_id: u64) -> (pane: Option<&WindowPane>)
        ensures
            match pane {
                Some(pane) => {
                    let index = space_index(self.spaces@, space_id);
                    &&& index < self.spaces@.len()
                    &&& *pane == self.spaces@[index].pane
                    &&& self.wf() ==> pane.wf()
                },
                None => space_index(self.spaces@, space_id) == self.spaces@.len(),
            },
    {
        match self.space_position(space_id) {
            Some(index) => Some(&self.spaces[index].pane),
            None => None,
        }
    }
}

/// A workspace is found where its number first occurs.
pub proof fn law_space_index(spaces: Seq<Space>, id: u64, i: int)
    requires
        0 <= i <= spaces.len(),
        forall|j: int| 0 <= j < i ==> (#[trigger] spaces[j]).id != id,
        i < spaces.len() ==> spaces[i].id == id,
    ensures
        space_index(spaces, id) == i,
{
    lemma_first_where(spaces, |space: Space| space.id == id, 0, i);
}

/// The numbers of the workspaces stand in the order of the workspaces.
pub proof fn law_space_ids(display: Display, i: int)
    requires
        0 <= i < display.spaces@.len(),
    ensures
        display.space_ids().len() == display.spaces@.len(),
        display.space_ids()[i] == display.spaces@[i].id,
{
}

} // verus!
