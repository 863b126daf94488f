//! What the window manager reacts to.

use notify::Event as FileSystemEvent;
use vstd::prelude::*;

use crate::geometry::Point;
use crate::platform::{DisplayID, Pid, ProcessSerialNumber, WinID};

verus! {

/// `notify::Event`, which says how the file system changed. Nothing is claimed of what is inside:
/// such a value is only passed on.
#[verifier::external_type_specification]
#[verifier::external_body]
pub struct ExFileSystemEvent(FileSystemEvent);

/// The settings that the rules depend on.
#[derive(Clone, Copy, Debug, PartialEq, Eq, Structural)]
pub struct Config {
    /// How many display widths a window travels in a second, as a fraction.
    pub animation_speed: u64,
    /// Whether a swipe that reaches the edge of the display goes on to the next window.
    pub continuous_swipe: bool,
}

/// Where a command points to.
#[derive(Clone, Copy, Debug, PartialEq, Eq, Structural)]
pub enum Direction {
    East,
    First,
    Last,
}

/// What a command does with a window.
#[derive(Clone, Copy, Debug, PartialEq, Eq, Structural)]
pub enum Operation {
    /// Focuses the window in a direction.
    Focus(Direction),
    /// Moves the window to the centre of the display.
    Center,
    /// Puts the window into its neighbour's column, or takes it out again.
    Stack(bool),
}

/// A command that the user gives.
#[derive(Clone, Copy, Debug, PartialEq, Eq, Structural)]
pub enum Command {
    Window(Operation),
}

/// `Event` represents the occurrences that the window manager reacts to.
#[derive(Debug)]
pub enum Event {
    /// Signals the application to exit.
    Exit,
    /// Indicates that the initial set of processes has been loaded.
    ProcessesLoaded,
    /// Announces the initially loaded configuration.
    InitialConfig(Config),
    /// Signals that the configuration should be reloaded.
    ConfigRefresh(FileSystemEvent),
    /// An application has been launched.
    ApplicationLaunched {
        psn: ProcessSerialNumber,
        /// Stands for the observer that saw it.
        observer: u64,
    },
    /// An application has terminated.
    ApplicationTerminated { psn: ProcessSerialNumber },
    /// The frontmost application has switched.
    ApplicationFrontSwitched { psn: ProcessSerialNumber },
    /// The application has been activated.
    ApplicationActivated,
    /// The application has been deactivated.
    ApplicationDeactivated,
    /// An application has become visible.
    ApplicationVisible { pid: Pid },
    /// An application has become hidden.
    ApplicationHidden { pid: Pid },
    /// A window has been created.
    WindowCreated {
        /// Stands for the accessibility element of the window.
        element: u64,
    },
    /// A window has been destroyed.
    WindowDestroyed { window_id: WinID },
    /// A window has gained focus.
    WindowFocused { window_id: WinID },
    /// A window has been moved.
    WindowMoved { window_id: WinID },
    /// A window has been resized.
    WindowResized { window_id: WinID },
    /// A window has been minimized.
    WindowMinimized { window_id: WinID },
    /// A window has been restored.
    WindowDeminimized { window_id: WinID },
    /// A window's title has changed.
    WindowTitleChanged { window_id: WinID },
    /// Indicates the currently focused item.
    CurrentlyFocused,
    /// A mouse button was pressed.
    MouseDown { point: Point },
    /// A mouse button was released.
    MouseUp { point: Point },
    /// The mouse was dragged.
    MouseDragged { point: Point },
    /// The mouse was moved.
    MouseMoved { point: Point },
    /// A swipe gesture has been detected.
    Swipe {
        /// How far each finger moved, as fractions.
        deltas: Vec<i64>,
    },
    /// A new space has been created.
    SpaceCreated,
    /// A space has been destroyed.
    SpaceDestroyed,
    /// The active space has changed.
    SpaceChanged,
    /// A new display has been added.
    DisplayAdded { display_id: DisplayID },
    /// A display has been removed.
    DisplayRemoved { display_id: DisplayID },
    /// A display has been moved.
    DisplayMoved { display_id: DisplayID },
    /// A display has been resized.
    DisplayResized { display_id: DisplayID },
    /// A display's configuration has changed.
    DisplayConfigured { display_id: DisplayID },
    /// The overall display arrangement has changed.
    DisplayChanged,
    /// Mission Control: show all windows.
    MissionControlShowAllWindows,
    /// Mission Control: show the windows of the frontmost application.
    MissionControlShowFrontWindows,
    /// Mission Control: show the desktop.
    MissionControlShowDesktop,
    /// Mission Control: exit.
    MissionControlExit,
    /// Dock preferences have changed.
    DockDidChangePref { msg: String },
    /// The Dock has restarted.
    DockDidRestart { msg: String },
    /// A menu has been opened.
    MenuOpened { window_id: WinID },
    /// A menu has been closed.
    MenuClosed { window_id: WinID },
    /// The visibility of the menu bar has changed.
    MenuBarHiddenChanged { msg: String },
    /// The system has woken from sleep.
    SystemWoke { msg: String },
    /// A command has been issued to the window manager.
    Command { command: Command },
    /// The number of event types.
    TypeCount,
}

} // verus!
