//! What the window manager attaches to windows, processes, applications and displays, and the
//! state that it keeps once for all of them.

use vstd::prelude::*;

use crate::events::{Command, Event};
use crate::geometry::{Point, Size};
use crate::pane::{Entity, WindowPane};
use crate::platform::{DisplayID, Process, WinID, Window};

verus! {

/// Marks the window that has the focus.
#[derive(Clone, Copy, Debug, PartialEq, Eq, Structural)]
pub struct FocusedMarker;

/// Marks the active display.
#[derive(Clone, Copy, Debug, PartialEq, Eq, Structural)]
pub struct ActiveDisplayMarker;

/// Marks a process, an application or a window that has just been created.
#[derive(Clone, Copy, Debug, PartialEq, Eq, Structural)]
pub struct FreshMarker;

/// Marks a process or an application that ran before the window manager did.
#[derive(Clone, Copy, Debug, PartialEq, Eq, Structural)]
pub struct ExistingMarker;

/// Asks for a window to be moved.
#[derive(Clone, Copy, Debug, PartialEq, Eq, Structural)]
pub struct RepositionMarker {
    /// Where the window is to go.
    pub origin: Point,
    /// The display that it goes to.
    pub display_id: DisplayID,
}

/// Asks for a window to be resized.
#[derive(Clone, Copy, Debug, PartialEq, Eq, Structural)]
pub struct ResizeMarker {
    /// How large the window is to be.
    pub size: Size,
    /// The display that it is on.
    pub display_id: DisplayID,
}

/// Says that a window is being dragged.
#[derive(Clone, Copy, Debug, PartialEq, Eq, Structural)]
pub struct WindowDraggedMarker {
    /// The window.
    pub entity: Entity,
    /// The display that it is dragged on.
    pub display_id: DisplayID,
}

/// Asks for the windows around a window to be arranged anew.
#[derive(Clone, Copy, Debug, PartialEq, Eq, Structural)]
pub struct ReshuffleAroundMarker;

/// Asks for a window to be swiped: by this fraction of the width of the display, to the left.
#[derive(Clone, Copy, Debug, PartialEq, Eq, Structural)]
pub struct WindowSwipeMarker(pub i64);

/// Why a window is not part of the tiling.
#[derive(Clone, Copy, Debug, PartialEq, Eq, Structural)]
pub enum Unmanaged {
    /// The window is floating.
    Floating,
    /// The window is minimized.
    Minimized,
    /// The window is hidden.
    Hidden,
}

/// A process, as an entity has it.
#[derive(Clone, Copy, Debug, PartialEq, Eq, Structural)]
pub struct BProcess(pub Process);

impl std::ops::Deref for BProcess {
    type Target = Process;

    fn deref(&self) -> (process: &Process)
        ensures
            *process == self.0,
    {
        &self.0
    }
}

impl std::ops::DerefMut for BProcess {
    fn deref_mut(&mut self) -> (process: &mut Process)
        ensures
            *process == old(self).0,
            final(self).0 == *final(process),
    {
        &mut self.0
    }
}

/// A focus event that came before its window was there.
#[derive(Clone, Copy, Debug, PartialEq, Eq, Structural)]
pub struct StrayFocusEvent(pub WinID);

/// The columns of a workspace that has lost its display.
#[derive(Debug)]
pub struct OrphanedPane {
    /// The number of the workspace.
    pub id: u64,
    /// The columns that were on it.
    pub pane: WindowPane,
}

/// Whether windows are not to be arranged anew for now.
#[derive(Clone, Copy, Debug, PartialEq, Eq, Structural)]
pub struct SkipReshuffle(pub bool);

/// Whether Mission Control is active.
#[derive(Clone, Copy, Debug, PartialEq, Eq, Structural)]
pub struct MissionControlActive(pub bool);

/// The window that is to have the focus because the mouse is over it.
#[derive(Clone, Copy, Debug, PartialEq, Eq, Structural)]
pub struct FocusFollowsMouse(pub Option<WinID>);

/// Whether to look for changes of displays and workspaces, because nobody tells.
#[derive(Clone, Copy, Debug, PartialEq, Eq, Structural)]
pub struct PollForNotifications(pub bool);

/// Says that something happened that the window manager reacts to.
#[derive(Debug)]
pub struct WMEventTrigger(pub Event);

/// Says that a command was given.
#[derive(Clone, Copy, Debug, PartialEq, Eq, Structural)]
pub struct CommandTrigger(pub Command);

/// Says that windows are there to be managed.
#[derive(Debug)]
pub struct SpawnWindowTrigger(pub Vec<Window>);

} // verus!
