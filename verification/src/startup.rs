//! Starting the window manager.

use vstd::prelude::*;

use crate::events::Event;

verus! {

/// What the user asks the program to do.
#[derive(Debug)]
pub enum SubCmd {
    /// Launches the window manager in the console.
    Launch,
    /// Installs it as a background service.
    Install,
    /// Uninstalls the background service.
    Uninstall,
    /// Reinstalls the background service.
    Reinstall,
    /// Starts the background service.
    Start,
    /// Stops the background service.
    Stop,
    /// Restarts the background service.
    Restart,
    /// Sends a command to the window manager that runs.
    SendCmd { cmd: Vec<String> },
}

impl Default for SubCmd {
    fn default() -> (subcmd: SubCmd)
        ensures
            subcmd is Launch,
    {
        SubCmd::Launch
    }
}

/// The command line.
#[derive(Debug)]
pub struct Paneru {
    /// What to do, if it says.
    pub subcmd: Option<SubCmd>,
}

impl Default for Paneru {
    fn default() -> (paneru: Paneru)
        ensures
            paneru.subcmd is None,
    {
        Paneru { subcmd: None }
    }
}

impl Paneru {
    /// What to do: what the command line says, or else to launch.
    pub fn task(self) -> (task: SubCmd)
        ensures
            task == match self.subcmd {
                Some(subcmd) => subcmd,
                None => SubCmd::Launch,
            },
    {
        match self.subcmd {
            Some(subcmd) => subcmd,
            None => SubCmd::default(),
        }
    }
}

/// A task on the way from the start of the window manager to its end.
#[derive(Clone, Copy, Debug, PartialEq, Eq, Structural)]
pub enum LaunchTask {
    /// Start the thread of the main loop.
    RunEventHandler,
    /// Start to listen for commands.
    StartCommandReader,
    /// Make the callbacks of the platform.
    CreateCallbacks,
    /// Set the callbacks up.
    SetupHandlers,
    /// Serve the callbacks until the main loop has ended.
    RunCallbacks,
    /// Wait for the thread of the main loop.
    JoinEventHandler,
}

/// The task that follows another one.
pub open spec fn task_after(task: LaunchTask) -> Option<LaunchTask> {
    match task {
        LaunchTask::RunEventHandler => Some(LaunchTask::StartCommandReader),
        LaunchTask::StartCommandReader => Some(LaunchTask::CreateCallbacks),
        LaunchTask::CreateCallbacks => Some(LaunchTask::SetupHandlers),
        LaunchTask::SetupHandlers => Some(LaunchTask::RunCallbacks),
        LaunchTask::RunCallbacks => Some(LaunchTask::JoinEventHandler),
        LaunchTask::JoinEventHandler => None,
    }
}

/// A task can fail, and then the window manager is not launched.
pub open spec fn may_fail(task: LaunchTask) -> bool {
    task is CreateCallbacks || task is SetupHandlers
}

/// Launches the window manager task by task: `done` is the task that was carried out last, and
/// whether it was successful, and the result is the next one, `Ok(None)` at the end, or the task
/// that failed.
pub fn launch(done: Option<(LaunchTask, bool)>) -> (next: Result<Option<LaunchTask>, LaunchTask>)
    requires
        done matches Some((task, succeeded)) ==> succeeded || may_fail(task),
    ensures
        next == match done {
            None => Ok(Some(LaunchTask::RunEventHandler)),
            Some((task, succeeded)) => if succeeded {
                Ok(task_after(task))
            } else {
                Err(task)
            },
        },
{
    match done {
        None => Ok(Some(LaunchTask::RunEventHandler)),
        Some((task, succeeded)) => {
            if !succeeded {
                return Err(task);
            }
            match task {
                LaunchTask::RunEventHandler => Ok(Some(LaunchTask::StartCommandReader)),
                LaunchTask::StartCommandReader => Ok(Some(LaunchTask::CreateCallbacks)),
                LaunchTask::CreateCallbacks => Ok(Some(LaunchTask::SetupHandlers)),
                LaunchTask::SetupHandlers => Ok(Some(LaunchTask::RunCallbacks)),
                LaunchTask::RunCallbacks => Ok(Some(LaunchTask::JoinEventHandler)),
                LaunchTask::JoinEventHandler => Ok(None),
            }
        },
    }
}

/// A task in setting up the callbacks of the platform.
#[derive(Clone, Copy, Debug, PartialEq, Eq, Structural)]
pub enum SetupTask {
    /// Ask whether the program may use the accessibility interface.
    CheckAccessibility,
    /// Ask whether every display has workspaces of its own.
    CheckSeparateSpaces,
    /// Start to listen to keyboard, mouse and gestures.
    StartInput,
    /// Start to listen for changes of displays.
    StartDisplay,
    /// Start to observe Mission Control.
    ObserveMissionControl,
    /// Start to observe workspaces. This cannot fail.
    StartWorkspace,
    /// Start to listen for processes.
    StartProcess,
    /// Send the event that all processes are loaded.
    SendProcessesLoaded,
}

/// Why the callbacks of the platform cannot be set up.
#[derive(Debug)]
pub enum SetupError {
    /// The program may not use the accessibility interface.
    PermissionDenied(String),
    /// The system is not set up as it needs to be.
    InvalidConfig(String),
    /// A handler could not be started, or the event could not be sent.
    Failed(SetupTask),
}

/// What is said if the program may not use the accessibility interface.
pub open spec fn permission_denied() -> Seq<char> {
    "Accessibility permissions are required. Please enable them in System Preferences -> Security & Privacy -> Privacy -> Accessibility."@
}

/// What is said if displays have no workspaces of their own.
pub open spec fn invalid_config() -> Seq<char> {
    "Option 'display has separate spaces' disabled."@
}

/// The task that follows another one in setting up the callbacks.
pub open spec fn setup_after(task: SetupTask) -> Option<SetupTask> {
    match task {
        SetupTask::CheckAccessibility => Some(SetupTask::CheckSeparateSpaces),
        SetupTask::CheckSeparateSpaces => Some(SetupTask::StartInput),
        SetupTask::StartInput => Some(SetupTask::StartDisplay),
        SetupTask::StartDisplay => Some(SetupTask::ObserveMissionControl),
        SetupTask::ObserveMissionControl => Some(SetupTask::StartWorkspace),
        SetupTask::StartWorkspace => Some(SetupTask::StartProcess),
        SetupTask::StartProcess => Some(SetupTask::SendProcessesLoaded),
        SetupTask::SendProcessesLoaded => None,
    }
}

/// The callbacks of the platform.
pub struct PlatformCallbacks;

impl PlatformCallbacks {
    /// Sets the callbacks up task by task: `done` is the task that was carried out last, and
    /// whether it was successful (for a question: whether the answer is yes), and the result is
    /// the next one, `Ok(None)` at the end, or why the callbacks cannot be set up.
    pub fn setup_handlers(done: Option<(SetupTask, bool)>) -> (next: Result<
        Option<SetupTask>,
        SetupError,
    >)
        requires
            done matches Some((task, succeeded)) ==> succeeded || !(task is StartWorkspace),
        ensures
            match done {
                None => next == Ok::<_, SetupError>(Some(SetupTask::CheckAccessibility)),
                Some((task, true)) => next == Ok::<_, SetupError>(setup_after(task)),
                Some((SetupTask::CheckAccessibility, false)) => next matches Err(
                    SetupError::PermissionDenied(message),
                ) && message@ == permission_denied(),
                Some((SetupTask::CheckSeparateSpaces, false)) => next matches Err(
                    SetupError::InvalidConfig(message),
                ) && message@ == invalid_config(),
                Some((task, false)) => next matches Err(SetupError::Failed(failed)) && failed
                    == task,
            },
    {
        let (task, succeeded) = match done {
            None => {
                return Ok(Some(SetupTask::CheckAccessibility));
            },
            Some(done) => done,
        };
        if !succeeded {
            return match task {
                SetupTask::CheckAccessibility => Err(
                    SetupError::PermissionDenied(
                        "Accessibility permissions are required. Please enable them in System Preferences -> Security & Privacy -> Privacy -> Accessibility.".to_string(),
                    ),
                ),
                SetupTask::CheckSeparateSpaces => Err(
                    SetupError::InvalidConfig(
                        "Option 'display has separate spaces' disabled.".to_string(),
                    ),
                ),
                task => Err(SetupError::Failed(task)),
            };
        }
        match task {
            SetupTask::CheckAccessibility => Ok(Some(SetupTask::CheckSeparateSpaces)),
            SetupTask::CheckSeparateSpaces => Ok(Some(SetupTask::StartInput)),
            SetupTask::StartInput => Ok(Some(SetupTask::StartDisplay)),
            SetupTask::StartDisplay => Ok(Some(SetupTask::ObserveMissionControl)),
            SetupTask::ObserveMissionControl => Ok(Some(SetupTask::StartWorkspace)),
            SetupTask::StartWorkspace => Ok(Some(SetupTask::StartProcess)),
            SetupTask::StartProcess => Ok(Some(SetupTask::SendProcessesLoaded)),
            SetupTask::SendProcessesLoaded => Ok(None),
        }
    }

    /// Serves the callbacks: `quit` says whether the main loop has ended. Until then events of the
    /// system are served; the event that is sent when it has is the last.
    pub fn run(quit: bool) -> (last: Option<Event>)
        ensures
            match last {
                Some(event) => quit && event is Exit,
                None => !quit,
            },
    {
        if quit {
            Some(Event::Exit)
        } else {
            None
        }
    }
}

/// As which one a task of launching is carried out.
pub open spec fn turn_of_task(task: LaunchTask) -> int {
    match task {
        LaunchTask::RunEventHandler => 0,
        LaunchTask::StartCommandReader => 1,
        LaunchTask::CreateCallbacks => 2,
        LaunchTask::SetupHandlers => 3,
        LaunchTask::RunCallbacks => 4,
        LaunchTask::JoinEventHandler => 5,
    }
}

/// As which one a task in setting up the callbacks is carried out.
pub open spec fn turn_of_setup(task: SetupTask) -> int {
    match task {
        SetupTask::CheckAccessibility => 0,
        SetupTask::CheckSeparateSpaces => 1,
        SetupTask::StartInput => 2,
        SetupTask::StartDisplay => 3,
        SetupTask::ObserveMissionControl => 4,
        SetupTask::StartWorkspace => 5,
        SetupTask::StartProcess => 6,
        SetupTask::SendProcessesLoaded => 7,
    }
}

/// Every task is followed by the next one in turn, and the last one by none; so each is carried
/// out once. In launching, only making the callbacks and setting them up may fail.
pub proof fn law_tasks_follow_in_turn(task: LaunchTask, setup: SetupTask)
    ensures
        match task_after(task) {
            Some(next) => turn_of_task(next) == turn_of_task(task) + 1,
            None => turn_of_task(task) == 5,
        },
        match setup_after(setup) {
            Some(next) => turn_of_setup(next) == turn_of_setup(setup) + 1,
            None => turn_of_setup(setup) == 7,
        },
        may_fail(task) <==> turn_of_task(task) == 2 || turn_of_task(task) == 3,
{
}

} // verus!
