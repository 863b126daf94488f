//! Finding out about changes of displays and workspaces that nobody told of.

use vstd::prelude::*;

#[allow(unused_imports)]
use crate::commands::Effect;
use crate::commands::{Action, Commands};
use crate::ecs::{ActiveDisplayMarker, WMEventTrigger};
use crate::events::Event;
use crate::platform::DisplayID;
#[allow(unused_imports)]
use crate::sequences::{
    find_where, gather, lemma_first_where, lemma_gather_at, lemma_gather_step, lemma_gathered_of,
};

verus! {

/// How often displays are looked at, in milliseconds.
pub const DISPLAY_CHANGE_CHECK_FREQ_MS: u64 = 1000;

/// How often the active workspace is looked at, in milliseconds.
pub const WORKSPACE_CHANGE_FREQ_MS: u64 = 1000;

/// A display that is known, with the marker if it is taken to be the active one.
#[derive(Clone, Copy, Debug, PartialEq, Eq, Structural)]
pub struct KnownDisplay {
    pub id: DisplayID,
    pub active: Option<ActiveDisplayMarker>,
}

/// The known display with a number.
pub open spec fn known(displays: Seq<KnownDisplay>, id: DisplayID) -> Option<KnownDisplay> {
    find_where(displays, |display: KnownDisplay| display.id == id)
}

/// What is told of the display that the system says is active: that it is new if it is not known,
/// that it has changed if another one is taken to be active, and else nothing.
pub open spec fn tells_of_active(displays: Seq<KnownDisplay>, current: DisplayID) -> Seq<Effect> {
    match known(displays, current) {
        Some(display) => if display.active is Some {
            Seq::empty()
        } else {
            seq![Effect::Do(Action::Trigger(WMEventTrigger(Event::DisplayChanged)))]
        },
        None => seq![
            Effect::Do(
                Action::Trigger(WMEventTrigger(Event::DisplayAdded { display_id: current })),
            ),
        ],
    }
}

/// What is told of a known display: that it is gone, if it is not among those `present`.
pub open spec fn tells_of_removal(display: KnownDisplay, present: Seq<DisplayID>) -> Seq<Effect> {
    if present.contains(display.id) {
        Seq::empty()
    } else {
        seq![
            Effect::Do(
                Action::Trigger(WMEventTrigger(Event::DisplayRemoved { display_id: display.id })),
            ),
        ]
    }
}

/// Tells of a difference between the display that the system says is active and the one that is
/// taken to be.
fn active_display(displays: &[KnownDisplay], id: DisplayID, commands: &mut Commands)
    ensures
        final(commands).extends(*old(commands), tells_of_active(displays@, id)),
{
    assert(commands@ + Seq::<Effect>::empty() =~= commands@);
    let ghost p = |display: KnownDisplay| display.id == id;
    let mut i: usize = 0;
    while i < displays.len()
        invariant
            0 <= i <= displays@.len(),
            p == (|display: KnownDisplay| display.id == id),
            forall|j: int| 0 <= j < i ==> !p(#[trigger] displays@[j]),
            *commands == *old(commands),
            commands@ + Seq::<Effect>::empty() == commands@,
        decreases displays@.len() - i,
    {
        if displays[i].id == id {
            proof {
                lemma_first_where(displays@, p, 0, i as int);
            }
            if displays[i].active.is_none() {
                commands.push(Action::Trigger(WMEventTrigger(Event::DisplayChanged)));
            }
            return ;
        }
        i += 1;
    }
    proof {
        lemma_first_where(displays@, p, 0, displays@.len() as int);
    }
    commands.push(Action::Trigger(WMEventTrigger(Event::DisplayAdded { display_id: id })));
}

/// Whether a number is among others.
fn is_present(present: &[DisplayID], id: DisplayID) -> (found: bool)
    ensures
        found == present@.contains(id),
{
    let mut i: usize = 0;
    while i < present.len()
        invariant
            0 <= i <= present@.len(),
            forall|j: int| 0 <= j < i ==> present@[j] != id,
        decreases present@.len() - i,
    {
        if present[i] == id {
            return true;
        }
        i += 1;
    }
    false
}

/// What is told of the displays: of the one that the system says is active, and then of every
/// known one that is not present any more.
pub open spec fn tells_of_displays(
    displays: Seq<KnownDisplay>,
    current: DisplayID,
    present: Seq<DisplayID>,
) -> Seq<Effect> {
    tells_of_active(displays, current) + gather(
        displays,
        |display: KnownDisplay| tells_of_removal(display, present),
    )
}

/// Compares the displays that are known with those that the system says are there: `current` is
/// the active one (`None` if the system does not say, and then nothing is told), and `present` are
/// all of them. Tells of a display that has become active, and of every display that is gone,
/// whichever is active.
pub fn display_changes_watcher(
    displays: &[KnownDisplay],
    current: Option<DisplayID>,
    present: &[DisplayID],
    commands: &mut Commands,
)
    ensures
        match current {
            Some(id) => final(commands).extends(
                *old(commands),
                tells_of_displays(displays@, id, present@),
            ),
            None => *final(commands) == *old(commands),
        },
{
    let id: DisplayID = match current {
        Some(id) => id,
        None => {
            return ;
        },
    };
    active_display(displays, id, commands);
    let ghost start = commands@;
    let ghost f = |display: KnownDisplay| tells_of_removal(display, present@);
    let mut i: usize = 0;
    assert(start + gather(displays@.take(0), f) =~= start);
    while i < displays.len()
        invariant
            f == (|display: KnownDisplay| tells_of_removal(display, present@)),
            0 <= i <= displays@.len(),
            commands.alive() == old(commands).alive(),
            commands@ == start + gather(displays@.take(i as int), f),
        decreases displays@.len() - i,
    {
        proof {
            lemma_gather_step(displays@, f, i as int);
        }
        let display_id: DisplayID = displays[i].id;
        if !is_present(present, display_id) {
            commands.push(Action::Trigger(WMEventTrigger(Event::DisplayRemoved { display_id })));
        }
        i += 1;
        assert(commands@ =~= start + gather(displays@.take(i as int), f));
    }
    assert(displays@.take(i as int) =~= displays@);
    assert(commands@ =~= old(commands)@ + tells_of_displays(displays@, id, present@));
}

/// Compares the workspace that the system says is active (`None` if it does not say) with the one
/// that was when it was last looked at, and tells of a difference.
pub fn workspace_change_watcher(
    space: Option<u64>,
    current_space: &mut u64,
    commands: &mut Commands,
)
    ensures
        match space {
            Some(space_id) => {
                &&& *final(current_space) == space_id
                &&& final(commands).extends(
                    *old(commands),
                    if *old(current_space) == space_id {
                        Seq::empty()
                    } else {
                        seq![Effect::Do(Action::Trigger(WMEventTrigger(Event::SpaceChanged)))]
                    },
                )
            },
            None => *final(current_space) == *old(current_space) && *final(commands) == *old(
                commands,
            ),
        },
{
    assert(commands@ + Seq::<Effect>::empty() =~= commands@);
    if let Some(space_id) = space {
        if *current_space != space_id {
            *current_space = space_id;
            commands.push(Action::Trigger(WMEventTrigger(Event::SpaceChanged)));
        }
    }
}

/// Every known display that is gone is told of as removed, whichever display is active, and no
/// other is.
pub proof fn law_removal_is_told(
    displays: Seq<KnownDisplay>,
    current: DisplayID,
    present: Seq<DisplayID>,
    id: DisplayID,
)
    ensures
        tells_of_displays(displays, current, present).contains(
            Effect::Do(Action::Trigger(WMEventTrigger(Event::DisplayRemoved { display_id: id }))),
        ) == (!present.contains(id) && exists|i: int|
            0 <= i < displays.len() && (#[trigger] displays[i]).id == id),
{
    let told = Effect::Do(
        Action::Trigger(WMEventTrigger(Event::DisplayRemoved { display_id: id })),
    );
    let f = |display: KnownDisplay| tells_of_removal(display, present);
    let first = tells_of_active(displays, current);
    let removals = gather(displays, f);
    let all = tells_of_displays(displays, current, present);
    if all.contains(told) {
        let k = choose|k: int| 0 <= k < all.len() && all[k] == told;
        assert(k >= first.len());
        assert(removals[k - first.len()] == told);
        let i = lemma_gathered_of(displays, f, k - first.len());
        assert(tells_of_removal(displays[i], present).contains(told));
        assert(displays[i].id == id);
    }
    if !present.contains(id) && exists|i: int|
        0 <= i < displays.len() && (#[trigger] displays[i]).id == id {
        let i = choose|i: int| 0 <= i < displays.len() && (#[trigger] displays[i]).id == id;
        lemma_gather_at(displays, f, i, 0);
        let k = gather(displays.take(i), f).len() as int;
        assert(all[first.len() + k] == told);
    }
}

/// Nothing is told of displays that are all present.
pub proof fn law_no_removal_when_present(displays: Seq<KnownDisplay>, present: Seq<DisplayID>)
    requires
        forall|i: int|
            0 <= i < displays.len() ==> present.contains((#[trigger] displays[i]).id),
    ensures
        gather(displays, |display: KnownDisplay| tells_of_removal(display, present)) == Seq::<
            Effect,
        >::empty(),
    decreases displays.len(),
{
    if displays.len() > 0 {
        let rest = displays.drop_last();
        assert forall|i: int| 0 <= i < rest.len() implies present.contains(
            (#[trigger] rest[i]).id,
        ) by {
            assert(present.contains(displays[i].id));
        }
        law_no_removal_when_present(rest, present);
        assert(present.contains(displays[displays.len() - 1].id));
        assert(Seq::<Effect>::empty() + Seq::<Effect>::empty() =~= Seq::<Effect>::empty());
    }
}

/// Of the display that the system says is active it is told that it is new if it is not known,
/// that the active display has changed if it is known and not taken to be active, and nothing if
/// it is; and that is told before any removal.
pub proof fn law_active_display_is_told(
    displays: Seq<KnownDisplay>,
    current: DisplayID,
    present: Seq<DisplayID>,
    i: int,
)
    requires
        0 <= i <= displays.len(),
        forall|j: int| 0 <= j < i ==> (#[trigger] displays[j]).id != current,
        i < displays.len() ==> displays[i].id == current,
    ensures
        ({
            let told = tells_of_active(displays, current);
            let all = tells_of_displays(displays, current, present);
            &&& i == displays.len() ==> told == seq![
                Effect::Do(
                    Action::Trigger(WMEventTrigger(Event::DisplayAdded { display_id: current })),
                ),
            ]
            &&& i < displays.len() && displays[i].active is None ==> told == seq![
                Effect::Do(Action::Trigger(WMEventTrigger(Event::DisplayChanged))),
            ]
            &&& i < displays.len() && displays[i].active is Some ==> told.len() == 0
            &&& told.len() <= all.len()
            &&& all.take(told.len() as int) == told
            &&& forall|k: int|
                told.len() <= k < all.len() ==> exists|id: DisplayID| #[trigger]
                    all[k] == #[trigger] removal_of(id)
        }),
{
    lemma_first_where(displays, |display: KnownDisplay| display.id == current, 0, i);
    let f = |display: KnownDisplay| tells_of_removal(display, present);
    let told = tells_of_active(displays, current);
    let all = tells_of_displays(displays, current, present);
    assert(all.take(told.len() as int) =~= told);
    assert forall|k: int| told.len() <= k < all.len() implies exists|id: DisplayID| #[trigger]
        all[k] == #[trigger] removal_of(id) by {
        let d = lemma_gathered_of(displays, f, k - told.len());
        assert(f(displays[d]).contains(all[k]));
        assert(all[k] == removal_of(displays[d].id));
    }
}

/// Telling that a display is gone.
pub open spec fn removal_of(id: DisplayID) -> Effect {
    Effect::Do(Action::Trigger(WMEventTrigger(Event::DisplayRemoved { display_id: id })))
}

/// A display that is gone is told of only once, if no two known displays have its number.
pub proof fn law_removal_is_told_once(
    displays: Seq<KnownDisplay>,
    present: Seq<DisplayID>,
    id: DisplayID,
    a: int,
    b: int,
)
    requires
        forall|i: int, j: int|
            0 <= i < j < displays.len() ==> (#[trigger] displays[i]).id != (
            #[trigger] displays[j]).id,
        0 <= a <= b < gather(
            displays,
            |display: KnownDisplay| tells_of_removal(display, present),
        ).len(),
        gather(displays, |display: KnownDisplay| tells_of_removal(display, present))[a]
            == removal_of(id),
        gather(displays, |display: KnownDisplay| tells_of_removal(display, present))[b]
            == removal_of(id),
    ensures
        a == b,
    decreases displays.len(),
{
    let f = |display: KnownDisplay| tells_of_removal(display, present);
    if displays.len() > 0 {
        let rest = displays.drop_last();
        let before = gather(rest, f);
        assert forall|i: int, j: int| 0 <= i < j < rest.len() implies (#[trigger] rest[i]).id != (
        #[trigger] rest[j]).id by {
            assert(displays[i].id != displays[j].id);
        }
        if b < before.len() {
            law_removal_is_told_once(rest, present, id, a, b);
        } else if a < before.len() {
            let i = lemma_gathered_of(rest, f, a);
            assert(f(rest[i]).contains(before[a]));
            assert(before[a] == removal_of(rest[i].id));
            assert(displays[i].id != displays[displays.len() - 1].id);
        }
    }
}

} // verus!
