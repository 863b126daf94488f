//! Workspaces that have lost their display.

use vstd::prelude::*;

#[allow(unused_imports)]
use crate::commands::Effect;
use crate::commands::{Action, Commands};
use crate::display::Display;
#[allow(unused_imports)]
use crate::display::{space_index, Space};
use crate::ecs::OrphanedPane;
use crate::pane::Entity;
#[allow(unused_imports)]
use crate::pane::{windows_of, Panel};
#[allow(unused_imports)]
use crate::sequences::{gather, lemma_first_where_is, lemma_gather_add, lemma_gather_step};

verus! {

/// The columns of a workspace that has lost its display, as an entity has them.
#[derive(Debug)]
pub struct Orphan {
    pub entity: Entity,
    pub pane: OrphanedPane,
}

/// A column for each of `windows`.
pub open spec fn singles(windows: Seq<Entity>) -> Seq<Panel> {
    Seq::new(windows.len(), |i: int| Panel::Single(windows[i]))
}

/// The columns that an orphaned workspace adds to workspace `id`: one for each of its windows, if
/// it is that workspace.
pub open spec fn brings(orphan: Orphan, id: u64) -> Seq<Panel> {
    if orphan.pane.id == id {
        singles(windows_of(orphan.pane.pane@))
    } else {
        Seq::empty()
    }
}

/// A workspace with this number is on the display.
pub open spec fn has_space(spaces: Seq<Space>, id: u64) -> bool {
    space_index(spaces, id) < spaces.len()
}

/// Removing the entity of an orphaned workspace that is on the display again.
pub open spec fn adopts(orphan: Orphan, spaces: Seq<Space>) -> Seq<Effect> {
    if has_space(spaces, orphan.pane.id) {
        seq![Effect::Do(Action::Despawn(orphan.entity))]
    } else {
        Seq::empty()
    }
}

/// `after` are the workspaces `before`, with what `orphans` bring.
pub open spec fn adopted(before: Seq<Space>, orphans: Seq<Orphan>, after: Seq<Space>) -> bool {
    &&& after.len() == before.len()
    &&& forall|i: int|
        0 <= i < before.len() ==> {
            let (old_space, new_space) = (before[i], #[trigger] after[i]);
            &&& new_space.id == old_space.id
            &&& new_space.pane@ == old_space.pane@ + gather(
                orphans,
                |orphan: Orphan| brings(orphan, old_space.id),
            )
        }
}

/// Workspaces with the same numbers are found at the same positions.
proof fn lemma_same_index(a: Seq<Space>, b: Seq<Space>, id: u64)
    requires
        a.len() == b.len(),
        forall|i: int| 0 <= i < a.len() ==> (#[trigger] a[i]).id == (#[trigger] b[i]).id,
    ensures
        space_index(a, id) == space_index(b, id),
{
    let p = |space: Space| space.id == id;
    lemma_first_where_is(a, p, 0);
    lemma_first_where_is(b, p, 0);
    let (i, j) = (space_index(a, id), space_index(b, id));
    if i < j {
        assert(p(a[i]) && !p(b[i]));
        assert(a[i].id == b[i].id);
    } else if j < i {
        assert(p(b[j]) && !p(a[j]));
        assert(a[j].id == b[j].id);
    }
}

/// Puts the windows of every orphaned workspace back onto the active display, if that has a
/// workspace with the same number: each into a column of its own, behind those that are there.
pub fn find_orphaned_spaces(
    orphaned_spaces: &[Orphan],
    active_display: &mut Display,
    commands: &mut Commands,
)
    requires
        old(active_display).wf(),
    ensures
        final(active_display).wf(),
        final(active_display).id == old(active_display).id,
        final(active_display).bounds == old(active_display).bounds,
        final(active_display).menubar_height == old(active_display).menubar_height,
        adopted(old(active_display).spaces@, orphaned_spaces@, final(active_display).spaces@),
        final(commands).extends(
            *old(commands),
            gather(
                orphaned_spaces@,
                |orphan: Orphan| adopts(orphan, old(active_display).spaces@),
            ),
        ),
{
    let ghost before = active_display.spaces@;
    let ghost f = |orphan: Orphan| adopts(orphan, before);
    let mut i: usize = 0;
    proof {
        assert(commands@ + gather(orphaned_spaces@.take(0), f) =~= commands@);
        assert forall|k: int| 0 <= k < before.len() implies (#[trigger] before[k]).pane@
            == before[k].pane@ + gather(
            orphaned_spaces@.take(0),
            |orphan: Orphan| brings(orphan, before[k].id),
        ) by {
            assert(before[k].pane@ + Seq::<Panel>::empty() =~= before[k].pane@);
        }
    }
    while i < orphaned_spaces.len()
        invariant
            before == old(active_display).spaces@,
            f == (|orphan: Orphan| adopts(orphan, before)),
            0 <= i <= orphaned_spaces@.len(),
            active_display.wf(),
            active_display.id == old(active_display).id,
            active_display.bounds == old(active_display).bounds,
            active_display.menubar_height == old(active_display).menubar_height,
            adopted(before, orphaned_spaces@.take(i as int), active_display.spaces@),
            commands.extends(*old(commands), gather(orphaned_spaces@.take(i as int), f)),
        decreases orphaned_spaces@.len() - i,
    {
        let orphan = &orphaned_spaces[i];
        let ghost start = active_display.spaces@;
        let ghost ws = windows_of(orphan.pane.pane@);
        proof {
            lemma_gather_step(orphaned_spaces@, f, i as int);
            lemma_same_index(before, start, orphan.pane.id);
        }
        if let Some(index) = active_display.space_position(orphan.pane.id) {
            let windows = orphan.pane.pane.all_windows();
            let mut j: usize = 0;
            assert(start[index as int].pane@ + singles(ws.take(0))
                =~= start[index as int].pane@);
            while j < windows.len()
                invariant
                    index < start.len(),
                    windows@ == ws,
                    0 <= j <= ws.len(),
                    active_display.wf(),
                    active_display.id == old(active_display).id,
                    active_display.bounds == old(active_display).bounds,
                    active_display.menubar_height == old(active_display).menubar_height,
                    active_display.spaces@.len() == start.len(),
                    forall|k: int|
                        0 <= k < start.len() && k != index ==> #[trigger] active_display.spaces@[k]
                            == start[k],
                    active_display.spaces@[index as int].id == start[index as int].id,
                    active_display.spaces@[index as int].pane@ == start[index as int].pane@
                        + singles(ws.take(j as int)),
                decreases ws.len() - j,
            {
                let ghost prior = active_display.spaces@;
                active_display.spaces[index].pane.append(windows[j]);
                j += 1;
                proof {
                    assert(singles(ws.take(j as int)) =~= singles(ws.take(j - 1)).push(
                        Panel::Single(ws[j - 1]),
                    ));
                    assert(active_display.spaces@[index as int].pane@
                        =~= start[index as int].pane@ + singles(ws.take(j as int)));
                    assert(prior[index as int].pane.wf());
                    assert forall|a: int, b: int| 0 <= a < b < active_display.spaces@.len() implies (
                    #[trigger] active_display.spaces@[a]).id != (
                    #[trigger] active_display.spaces@[b]).id by {
                        assert(prior[a].id != prior[b].id);
                    }
                }
            }
            assert(ws.take(j as int) =~= ws);
            commands.push(Action::Despawn(orphan.entity));
        }
        proof {
            let after = active_display.spaces@;
            let index = space_index(start, orphan.pane.id);
            lemma_first_where_is(start, |space: Space| space.id == orphan.pane.id, 0);
            assert forall|k: int| 0 <= k < before.len() implies ({
                let (old_space, new_space) = (before[k], #[trigger] after[k]);
                &&& new_space.id == old_space.id
                &&& new_space.pane@ == old_space.pane@ + gather(
                    orphaned_spaces@.take(i + 1),
                    |orphan: Orphan| brings(orphan, old_space.id),
                )
            }) by {
                let g = |orphan: Orphan| brings(orphan, before[k].id);
                lemma_gather_step(orphaned_spaces@, g, i as int);
                assert(start[k].id == before[k].id);
                if k != index {
                    assert(after[k] == start[k]);
                    if orphan.pane.id == before[k].id {
                        assert(start[k].id == start[index].id);
                        assert(false);
                    }
                }
                assert(after[k].pane@ =~= before[k].pane@ + gather(
                    orphaned_spaces@.take(i + 1),
                    g,
                ));
            }
        }
        i += 1;
        assert(commands@ =~= old(commands)@ + gather(orphaned_spaces@.take(i as int), f));
    }
    assert(orphaned_spaces@.take(i as int) =~= orphaned_spaces@);
}

proof fn lemma_windows_of_singles(windows: Seq<Entity>)
    ensures
        windows_of(singles(windows)) == windows,
    decreases windows.len(),
{
    if windows.len() > 0 {
        lemma_windows_of_singles(windows.drop_last());
        assert(singles(windows).drop_last() =~= singles(windows.drop_last()));
        assert(windows.drop_last() + seq![windows.last()] =~= windows);
    } else {
        assert(windows_of(singles(windows)) =~= windows);
    }
}

/// No window is lost or put elsewhere: a workspace that takes in an orphaned one has the windows
/// that it had, and behind them those of the orphaned one, in their order.
pub proof fn law_adoption_keeps_windows(panels: Seq<Panel>, orphan: Orphan)
    ensures
        windows_of(panels + brings(orphan, orphan.pane.id)) == windows_of(panels) + windows_of(
            orphan.pane.pane@,
        ),
{
    lemma_windows_of_singles(windows_of(orphan.pane.pane@));
    lemma_gather_add(
        panels,
        brings(orphan, orphan.pane.id),
        |panel: Panel| panel.windows(),
    );
}

/// An orphaned workspace is done with if and only if a workspace with its number is on the
/// display.
pub proof fn law_orphan_is_adopted(orphan: Orphan, spaces: Seq<Space>)
    ensures
        adopts(orphan, spaces).len() <= 1,
        adopts(orphan, spaces).len() == 1 <==> exists|i: int|
            0 <= i < spaces.len() && (#[trigger] spaces[i]).id == orphan.pane.id,
        adopts(orphan, spaces).len() == 1 ==> adopts(orphan, spaces)[0] == Effect::Do(
            Action::Despawn(orphan.entity),
        ),
{
    lemma_first_where_is(spaces, |space: Space| space.id == orphan.pane.id, 0);
    if has_space(spaces, orphan.pane.id) {
        assert(spaces[space_index(spaces, orphan.pane.id)].id == orphan.pane.id);
    }
}

/// The windows that an orphaned workspace has, if it has that number.
pub open spec fn windows_for(orphan: Orphan, id: u64) -> Seq<Entity> {
    if orphan.pane.id == id {
        windows_of(orphan.pane.pane@)
    } else {
        Seq::empty()
    }
}

/// Every one of these columns is that of a single window.
pub open spec fn all_single(panels: Seq<Panel>) -> bool {
    forall|k: int| 0 <= k < panels.len() ==> (#[trigger] panels[k]) is Single
}

proof fn lemma_windows_brought(orphans: Seq<Orphan>, id: u64)
    ensures
        windows_of(gather(orphans, |orphan: Orphan| brings(orphan, id))) == gather(
            orphans,
            |orphan: Orphan| windows_for(orphan, id),
        ),
        all_single(gather(orphans, |orphan: Orphan| brings(orphan, id))),
    decreases orphans.len(),
{
    if orphans.len() > 0 {
        let (rest, last) = (orphans.drop_last(), orphans.last());
        lemma_windows_brought(rest, id);
        lemma_gather_add(
            gather(rest, |orphan: Orphan| brings(orphan, id)),
            brings(last, id),
            |panel: Panel| panel.windows(),
        );
        lemma_windows_of_singles(windows_of(last.pane.pane@));
        assert(windows_of(brings(last, id)) =~= windows_for(last, id));
    }
}

/// Adopting loses no window and puts none elsewhere: every workspace keeps its columns where they
/// are, and behind them come the windows of every orphaned workspace with its number, in order,
/// each in a column of its own.
pub proof fn law_workspaces_take_in_orphans(
    before: Seq<Space>,
    orphans: Seq<Orphan>,
    after: Seq<Space>,
    i: int,
)
    requires
        adopted(before, orphans, after),
        0 <= i < before.len(),
    ensures
        after.len() == before.len(),
        after[i].id == before[i].id,
        ({
            let (had, has) = (before[i].pane@, after[i].pane@);
            &&& had.len() <= has.len()
            &&& has.take(had.len() as int) == had
            &&& forall|k: int| had.len() <= k < has.len() ==> (#[trigger] has[k]) is Single
            &&& windows_of(has) == windows_of(had) + gather(
                orphans,
                |orphan: Orphan| windows_for(orphan, before[i].id),
            )
        }),
{
    let (had, has) = (before[i].pane@, after[i].pane@);
    let brought = gather(orphans, |orphan: Orphan| brings(orphan, before[i].id));
    assert(after[i].id == before[i].id);
    lemma_windows_brought(orphans, before[i].id);
    lemma_gather_add(had, brought, |panel: Panel| panel.windows());
    assert(has.take(had.len() as int) =~= had);
    assert forall|k: int| had.len() <= k < has.len() implies (#[trigger] has[k]) is Single by {
        assert(brought[k - had.len()] is Single);
    }
}

} // verus!
