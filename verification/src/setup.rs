//! Taking over what is there when the window manager starts.

use vstd::prelude::*;

#[allow(unused_imports)]
use crate::commands::Effect;
use crate::commands::{Action, Bundle, Commands, Component, Flow, Marker};
use crate::display::Display;
#[allow(unused_imports)]
use crate::display::{law_space_index, space_index};
use crate::ecs::{ActiveDisplayMarker, ExistingMarker, FocusedMarker, SpawnWindowTrigger};
use crate::pane::Entity;
#[allow(unused_imports)]
use crate::pane::{columns, law_first_column};
use crate::platform::{Application, DisplayID, Window};
#[allow(unused_imports)]
use crate::sequences::{gather, lemma_gather_step};

verus! {

/// Creating an entity for a display, marked if it is the active one.
pub open spec fn spawns_display(display: Display, active: DisplayID) -> Seq<Effect> {
    seq![
        Effect::Do(
            Action::Spawn(
                Bundle::Display(
                    display,
                    if display.id == active {
                        Some(ActiveDisplayMarker)
                    } else {
                        None
                    },
                ),
            ),
        ),
    ]
}

/// Creates an entity for every display that is present; the one that the system says is active is
/// marked. If it does not say, nothing is created.
pub fn gather_displays(active: Option<DisplayID>, present: Vec<Display>, commands: &mut Commands)
    ensures
        match active {
            Some(id) => final(commands).extends(
                *old(commands),
                gather(present@, |display: Display| spawns_display(display, id)),
            ),
            None => *final(commands) == *old(commands),
        },
{
    let id: DisplayID = match active {
        Some(id) => id,
        None => {
            return ;
        },
    };
    let ghost all = present@;
    let ghost f = |display: Display| spawns_display(display, id);
    assert(commands@ + gather(all.take(0), f) =~= commands@);
    for display in it: present
        invariant
            it.seq() == all,
            f == (|display: Display| spawns_display(display, id)),
            commands.extends(*old(commands), gather(all.take(it.index() as int), f)),
    {
        let ghost i = it.index() as int;
        proof {
            lemma_gather_step(all, f, i);
            assert(display == all[i]);
        }
        let marker = if display.id == id {
            Some(ActiveDisplayMarker)
        } else {
            None
        };
        commands.push(Action::Spawn(Bundle::Display(display, marker)));
        assert(commands@ =~= old(commands)@ + gather(all.take(i + 1), f));
    }
    assert(all.take(all.len() as int) =~= all);
}

/// Adds the application of a process that was there before: `created` is the application that was
/// made of it. If none could be, no further process is looked at.
pub fn add_existing_process(
    entity: Entity,
    created: Option<Application>,
    commands: &mut Commands,
) -> (flow: Flow)
    ensures
        match created {
            Some(application) => flow == Flow::Continue && final(commands).extends(
                *old(commands),
                seq![
                    Effect::Do(
                        Action::Spawn(
                            Bundle::ExistingApplication(application, ExistingMarker, entity),
                        ),
                    ),
                    Effect::Do(Action::Remove(entity, Marker::Existing)),
                ],
            ),
            None => flow == Flow::Stop && *final(commands) == *old(commands),
        },
{
    match created {
        Some(application) => {
            let bundle = Bundle::ExistingApplication(application, ExistingMarker, entity);
            commands.push(Action::Spawn(bundle));
            commands.push(Action::Remove(entity, Marker::Existing));
            assert(commands@ =~= old(commands)@ + seq![
                Effect::Do(Action::Spawn(bundle)),
                Effect::Do(Action::Remove(entity, Marker::Existing)),
            ]);
            Flow::Continue
        },
        None => Flow::Stop,
    }
}

/// The numbers of the workspaces of all displays.
pub fn existing_spaces(displays: &[Display]) -> (spaces: Vec<u64>)
    ensures
        spaces@ == gather(displays@, |display: Display| display.space_ids()),
{
    let ghost f = |display: Display| display.space_ids();
    let mut spaces: Vec<u64> = Vec::new();
    let mut i: usize = 0;
    while i < displays.len()
        invariant
            f == (|display: Display| display.space_ids()),
            0 <= i <= displays@.len(),
            spaces@ == gather(displays@.take(i as int), f),
        decreases displays@.len() - i,
    {
        proof {
            lemma_gather_step(displays@, f, i as int);
        }
        let display = &displays[i];
        let ghost (before, ids) = (spaces@, display.space_ids());
        let mut j: usize = 0;
        while j < display.spaces.len()
            invariant
                0 <= j <= display.spaces@.len() == ids.len(),
                ids == display.space_ids(),
                spaces@ == before + ids.take(j as int),
            decreases display.spaces@.len() - j,
        {
            spaces.push(display.spaces[j].id);
            j += 1;
            assert(spaces@ =~= before + ids.take(j as int));
        }
        assert(ids.take(j as int) =~= ids);
        i += 1;
    }
    assert(displays@.take(i as int) =~= displays@);
    spaces
}

/// Whether the windows of an application that was there before are to be looked for: only if it
/// can be observed. `observed` is what trying to came to, `None` if that failed.
pub fn wants_windows(observed: Option<bool>) -> (wanted: bool)
    ensures
        wanted == (observed == Some(true)),
{
    match observed {
        Some(observed) => observed,
        None => false,
    }
}

/// Tells of the windows of an application that was there before, `windows`, if they were looked
/// for and could be found. The application is then no longer one to be taken over.
pub fn add_existing_application(
    entity: Entity,
    windows: Option<Vec<Window>>,
    commands: &mut Commands,
)
    ensures
        final(commands).extends(
            *old(commands),
            match windows {
                Some(windows) => seq![
                    Effect::SpawnWindows(windows@),
                    Effect::Do(Action::Remove(entity, Marker::Existing)),
                ],
                None => seq![Effect::Do(Action::Remove(entity, Marker::Existing))],
            },
        ),
{
    match windows {
        Some(windows) => {
            let ghost told = windows@;
            commands.push(Action::SpawnWindows(SpawnWindowTrigger(windows)));
            commands.push(Action::Remove(entity, Marker::Existing));
            assert(commands@ =~= old(commands)@ + seq![
                Effect::SpawnWindows(told),
                Effect::Do(Action::Remove(entity, Marker::Existing)),
            ]);
        },
        None => {
            commands.push(Action::Remove(entity, Marker::Existing));
        },
    }
}

/// The uppermost window of the leftmost column of a workspace of a display that holds one.
pub open spec fn first_window(display: Display, space: Option<u64>) -> Option<Entity> {
    match space {
        Some(id) => {
            let index = space_index(display.spaces@, id);
            if index < display.spaces@.len() && columns(display.spaces@[index].pane@).len() > 0 {
                Some(columns(display.spaces@[index].pane@)[0])
            } else {
                None
            }
        },
        None => None,
    }
}

/// Gives the focus to the first window of the active workspace, if `display` is the active one.
/// `active_space` is the workspace of it that the system says is active.
pub fn finish_setup(
    display: &Display,
    active: Option<ActiveDisplayMarker>,
    active_space: Option<u64>,
    commands: &mut Commands,
)
    ensures
        final(commands).extends(
            *old(commands),
            match (active, first_window(*display, active_space)) {
                (Some(_), Some(entity)) => seq![
                    Effect::Do(Action::Insert(entity, Component::Focused(FocusedMarker))),
                ],
                _ => Seq::empty(),
            },
        ),
{
    assert(commands@ + Seq::<Effect>::empty() =~= commands@);
    if active.is_none() {
        return ;
    }
    if let Some(space) = active_space {
        if let Some(pane) = display.active_panel(space) {
            if let Some(entity) = pane.first_window() {
                commands.push(Action::Insert(entity, Component::Focused(FocusedMarker)));
            }
        }
    }
}

/// Every display becomes an entity, and exactly the active one is marked.
pub proof fn law_active_display_is_marked(display: Display, active: DisplayID)
    ensures
        spawns_display(display, active).len() == 1,
        spawns_display(display, active)[0] matches Effect::Do(
            Action::Spawn(Bundle::Display(spawned, marker)),
        ) && spawned == display && (marker is Some <==> display.id == active),
{
}

/// The first window of a workspace is the uppermost one of its leftmost column that holds one: `s`
/// is where the workspace is on the display, and `j` where that column is in the workspace.
pub proof fn law_first_window(display: Display, id: u64, s: int, j: int)
    requires
        0 <= s <= display.spaces@.len(),
        forall|k: int| 0 <= k < s ==> (#[trigger] display.spaces@[k]).id != id,
        s < display.spaces@.len() ==> {
            let panels = display.spaces@[s].pane@;
            &&& display.spaces@[s].id == id
            &&& 0 <= j <= panels.len()
            &&& forall|k: int| 0 <= k < j ==> (#[trigger] panels[k]).windows().len() == 0
            &&& j < panels.len() ==> panels[j].windows().len() > 0
        },
    ensures
        first_window(display, None) is None,
        first_window(display, Some(id)) == if s < display.spaces@.len() && j
            < display.spaces@[s].pane@.len() {
            Some(display.spaces@[s].pane@[j].windows()[0])
        } else {
            None
        },
{
    law_space_index(display.spaces@, id, s);
    if s < display.spaces@.len() {
        law_first_column(display.spaces@[s].pane@, j);
    }
}

} // verus!
