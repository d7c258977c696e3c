//! The manager of the child process: it takes one command at a time, and decides after
//! each thing that it had done what is to be done next.

use vstd::prelude::*;

use crate::command::{
    kill_by_name, kill_by_name_line, kill_by_pid, kill_by_pid_line, launch_line, launch_script,
    powershell_bypass, powershell_bypass_line, CommandLine, Invocation, REMOVE_TUN_SCRIPT,
};
use crate::path::{
    file_name, file_stem, law_obvious_name_is_the_name, obvious_name, possible_name, stem_of,
};
use crate::text::{number, option_view, parse_number, trim, trimmed};

verus! {

/// How many launches an automatic start makes before it gives up.
pub const AUTO_START_ATTEMPTS: u64 = 5;

/// How often a process that was asked to end is looked at before it is ended by force.
pub const GRACE_CHECKS: u32 = 10;

/// How often a process that was ended is looked for before the manager stops waiting.
pub const VANISH_CHECKS: u32 = 15;

/// What the manager can be told to do.
#[derive(Debug, PartialEq, Eq)]
pub enum ChildCommand<S = String> {
    Install,
    Start,
    Stop,
    UpdateConfigPath(S),
    AutoStart,
}

/// How an installation goes.
#[derive(Debug, PartialEq, Eq)]
pub enum InstallStatus<S = String> {
    Installing { app_name: S },
    Installed { path: S, app_name: S },
    Failed { app_name: S, error: S },
}

/// What a dialog leads to.
#[derive(Clone, Copy, PartialEq, Eq, Structural, Debug)]
pub enum DialogCommand {
    Restart,
    Exit,
    RetryAutoStart,
}

/// A picture that the tray can show.
#[derive(Clone, Copy, PartialEq, Eq, Structural, Debug)]
pub enum Frame {
    Original,
    Green,
    Blue,
}

/// What the tray icon is to do.
#[derive(Clone, Copy, PartialEq, Eq, Structural, Debug)]
pub enum IconCommand {
    Restore,
    StartRain,
    StopRain,
    Glitch,
    StopGlitch,
    InstallProgress,
    SetRainFrame(Frame),
    SetGlitchFrame(Frame),
    SetInstallFrame(Frame),
}

/// An application: its path, and the last part of the path with and without extension.
#[derive(Debug, PartialEq, Eq)]
pub struct AppTarget<S = String> {
    pub path: S,
    pub file_name: S,
    pub file_stem: S,
}

/// What the manager is waiting for.
#[derive(Debug, PartialEq, Eq)]
pub enum Phase<S = String> {
    /// A command, or the time to look after the child.
    Idle,
    /// The installation of the application with this name.
    Installing(S),
    /// Whether the application exists.
    CheckingApp,
    /// Whether the configuration exists.
    CheckingConfig,
    /// The end of processes that run the application already.
    ClearingByName,
    /// The removal of network adapters.
    RemovingAdapter,
    /// The launch.
    Launching,
    /// Whether the launched process is alive.
    Verifying(u32),
    /// The request to the child to end.
    AskedToEnd(u32),
    /// Whether the child still has not ended; it is asked for so many times more.
    Grace { pid: u32, left: u32 },
    /// Whether the child has to be ended by force.
    LastCheck(u32),
    /// The end of the child by force.
    Forced,
    /// A pause after that.
    ForcedPause,
    /// The end of all processes that run the application.
    EndingAll,
    /// Whether the child has vanished; it is asked for so many times more.
    Vanishing { pid: u32, left: u32 },
    /// Whether the child is still there.
    Watching(u32),
    /// A pause after the child ended by itself.
    Crashed,
}

/// What happened: a command, the time to look after the child, or the answer to what
/// the manager asked for.
#[derive(Debug, PartialEq, Eq)]
pub enum Event<S = String, P = Vec<u32>> {
    Command(ChildCommand<S>),
    Tick,
    Exists(bool),
    Ran,
    /// What the launch printed; nothing if it could not be made.
    Launched(Option<S>),
    Alive(bool),
    /// The numbers of all processes.
    Processes(P),
    Slept,
    Installed(Result<AppTarget<S>, S>),
}

/// What is to be done at once, in order.
#[derive(Debug, PartialEq, Eq)]
pub enum Effect<S = String> {
    /// Tell the tray how the installation goes.
    Status(InstallStatus<S>),
    /// Tell the tray whether to show the child as running.
    ShowRunning(bool),
    /// Set the flag that says whether the child runs.
    SetRunning(bool),
    /// Tell the tray icon what to do.
    Icon(IconCommand),
    /// Tell the tray icon what to do, after so many seconds.
    IconAfter(u64, IconCommand),
    /// Give the manager this command next.
    Enqueue(ChildCommand<S>),
    /// Give the manager the command to start, after so many seconds.
    StartAfter(u64),
    /// Tell the tray what a dialog is to decide.
    Dialog(DialogCommand),
    /// Ask the user whether to restart the child.
    AskRestart,
    /// Keep the process that was launched last as the child.
    KeepLaunched,
    /// Let go of the process that was launched last.
    DropLaunched,
    /// End the child, and let go of it.
    KillChild,
    /// Let go of the child.
    DropChild,
}

/// What is to be done after that; the next event answers it.
#[derive(Debug, PartialEq, Eq)]
pub enum Ask<S = String, L = Invocation> {
    /// Wait for a command, or for the time to look after the child.
    Nothing,
    /// Find out whether a file exists.
    Exists(S),
    /// Run a program to its end.
    Run(L),
    /// Run a program in a process group of its own, to its end, and say what it printed.
    Launch(L),
    /// After so many milliseconds, find out whether a process is alive.
    Alive { pid: u32, delay_ms: u64 },
    /// After so many milliseconds, list all processes.
    Processes { delay_ms: u64 },
    /// Wait for so many milliseconds.
    Sleep { delay_ms: u64 },
    /// Install the application with this name.
    Install(S),
}

/// The manager.
#[derive(Debug, PartialEq, Eq)]
pub struct Manager<S = String> {
    /// The number of the child process, if there is one.
    pub child: Option<u32>,
    /// The user was asked whether to restart the child.
    pub dialog_shown: bool,
    /// The application to run.
    pub app: AppTarget<S>,
    /// The configuration to run it with.
    pub cfg_path: S,
    /// How many launches of an automatic start have failed so far.
    pub attempts: u64,
    /// An automatic start is going on.
    pub pending: bool,
    /// What the manager is waiting for.
    pub phase: Phase<S>,
}

impl View for ChildCommand {
    type V = ChildCommand<Seq<char>>;

    open spec fn view(&self) -> ChildCommand<Seq<char>> {
        match self {
            ChildCommand::Install => ChildCommand::Install,
            ChildCommand::Start => ChildCommand::Start,
            ChildCommand::Stop => ChildCommand::Stop,
            ChildCommand::UpdateConfigPath(path) => ChildCommand::UpdateConfigPath(path@),
            ChildCommand::AutoStart => ChildCommand::AutoStart,
        }
    }
}

impl View for InstallStatus {
    type V = InstallStatus<Seq<char>>;

    open spec fn view(&self) -> InstallStatus<Seq<char>> {
        match self {
            InstallStatus::Installing { app_name } => InstallStatus::Installing {
                app_name: app_name@,
            },
            InstallStatus::Installed { path, app_name } => InstallStatus::Installed {
                path: path@,
                app_name: app_name@,
            },
            InstallStatus::Failed { app_name, error } => InstallStatus::Failed {
                app_name: app_name@,
                error: error@,
            },
        }
    }
}

impl View for AppTarget {
    type V = AppTarget<Seq<char>>;

    open spec fn view(&self) -> AppTarget<Seq<char>> {
        AppTarget { path: self.path@, file_name: self.file_name@, file_stem: self.file_stem@ }
    }
}

impl View for Phase {
    type V = Phase<Seq<char>>;

    open spec fn view(&self) -> Phase<Seq<char>> {
        match self {
            Phase::Idle => Phase::Idle,
            Phase::Installing(name) => Phase::Installing(name@),
            Phase::CheckingApp => Phase::CheckingApp,
            Phase::CheckingConfig => Phase::CheckingConfig,
            Phase::ClearingByName => Phase::ClearingByName,
            Phase::RemovingAdapter => Phase::RemovingAdapter,
            Phase::Launching => Phase::Launching,
            Phase::Verifying(pid) => Phase::Verifying(*pid),
            Phase::AskedToEnd(pid) => Phase::AskedToEnd(*pid),
            Phase::Grace { pid, left } => Phase::Grace { pid: *pid, left: *left },
            Phase::LastCheck(pid) => Phase::LastCheck(*pid),
            Phase::Forced => Phase::Forced,
            Phase::ForcedPause => Phase::ForcedPause,
            Phase::EndingAll => Phase::EndingAll,
            Phase::Vanishing { pid, left } => Phase::Vanishing { pid: *pid, left: *left },
            Phase::Watching(pid) => Phase::Watching(*pid),
            Phase::Crashed => Phase::Crashed,
        }
    }
}

impl View for Event {
    type V = Event<Seq<char>, Seq<u32>>;

    open spec fn view(&self) -> Event<Seq<char>, Seq<u32>> {
        match self {
            Event::Command(command) => Event::Command(command@),
            Event::Tick => Event::Tick,
            Event::Exists(exists) => Event::Exists(*exists),
            Event::Ran => Event::Ran,
            Event::Launched(output) => Event::Launched(option_view(*output)),
            Event::Alive(alive) => Event::Alive(*alive),
            Event::Processes(pids) => Event::Processes(pids@),
            Event::Slept => Event::Slept,
            Event::Installed(Ok(target)) => Event::Installed(Ok(target@)),
            Event::Installed(Err(error)) => Event::Installed(Err(error@)),
        }
    }
}

impl View for Effect {
    type V = Effect<Seq<char>>;

    open spec fn view(&self) -> Effect<Seq<char>> {
        match self {
            Effect::Status(status) => Effect::Status(status@),
            Effect::ShowRunning(running) => Effect::ShowRunning(*running),
            Effect::SetRunning(running) => Effect::SetRunning(*running),
            Effect::Icon(command) => Effect::Icon(*command),
            Effect::IconAfter(secs, command) => Effect::IconAfter(*secs, *command),
            Effect::Enqueue(command) => Effect::Enqueue(command@),
            Effect::StartAfter(secs) => Effect::StartAfter(*secs),
            Effect::Dialog(command) => Effect::Dialog(*command),
            Effect::AskRestart => Effect::AskRestart,
            Effect::KeepLaunched => Effect::KeepLaunched,
            Effect::DropLaunched => Effect::DropLaunched,
            Effect::KillChild => Effect::KillChild,
            Effect::DropChild => Effect::DropChild,
        }
    }
}

impl View for Ask {
    type V = Ask<Seq<char>, CommandLine>;

    open spec fn view(&self) -> Ask<Seq<char>, CommandLine> {
        match self {
            Ask::Nothing => Ask::Nothing,
            Ask::Exists(path) => Ask::Exists(path@),
            Ask::Run(line) => Ask::Run(line@),
            Ask::Launch(line) => Ask::Launch(line@),
            Ask::Alive { pid, delay_ms } => Ask::Alive { pid: *pid, delay_ms: *delay_ms },
            Ask::Processes { delay_ms } => Ask::Processes { delay_ms: *delay_ms },
            Ask::Sleep { delay_ms } => Ask::Sleep { delay_ms: *delay_ms },
            Ask::Install(name) => Ask::Install(name@),
        }
    }
}

impl View for Manager {
    type V = Manager<Seq<char>>;

    open spec fn view(&self) -> Manager<Seq<char>> {
        Manager {
            child: self.child,
            dialog_shown: self.dialog_shown,
            app: self.app@,
            cfg_path: self.cfg_path@,
            attempts: self.attempts,
            pending: self.pending,
            phase: self.phase@,
        }
    }
}

/// The application at a path, of which the last part is known.
pub open spec fn target_named(path: Seq<char>, name: Option<Seq<char>>) -> AppTarget<Seq<char>> {
    match name {
        Some(name) => AppTarget { path, file_name: name, file_stem: stem_of(name) },
        None => AppTarget { path, file_name: seq![], file_stem: seq![] },
    }
}

impl AppTarget {
    /// The application at a path. Its last part is the one that Unix or Windows takes; where
    /// all operating systems agree, it is that one.
    pub fn new(path: String) -> (r: AppTarget)
        ensures
            exists|name: Option<Seq<char>>| #[trigger]
                possible_name(path@, name) && r@ == target_named(path@, name),
            obvious_name(path@) is Some ==> r@ == target_named(path@, obvious_name(path@)),
    {
        let name = file_name(path.as_str());
        let ghost named = option_view(name);
        proof {
            assert(possible_name(path@, named));
            if obvious_name(path@) is Some {
                law_obvious_name_is_the_name(path@, named);
            }
        }
        AppTarget::named(path, name)
    }

    /// The application at a path, of which the last part is known.
    pub fn named(path: String, name: Option<String>) -> (r: AppTarget)
        ensures
            r@ == target_named(path@, option_view(name)),
    {
        match name {
            Some(name) => {
                let stem = file_stem(name.as_str());
                AppTarget { path, file_name: name, file_stem: stem }
            },
            None => AppTarget { path, file_name: String::new(), file_stem: String::new() },
        }
    }
}

/// The contents of effects.
pub open spec fn effect_views(effects: Seq<Effect>) -> Seq<Effect<Seq<char>>> {
    effects.map_values(|e: Effect| e@)
}

/// A manager's state, in contracts.
pub type ManagerState = Manager<Seq<char>>;

/// An event, in contracts.
pub type ManagerEvent = Event<Seq<char>, Seq<u32>>;

/// What a step gives, in contracts: the next state, the effects, and what is asked for.
pub type ManagerStep = (ManagerState, Seq<Effect<Seq<char>>>, Ask<Seq<char>, CommandLine>);

/// What holds of a manager at all times. There is no child while one is launched; the
/// child that is being ended or watched is the manager's.
pub open spec fn manager_wf(m: ManagerState) -> bool {
    &&& m.attempts < AUTO_START_ATTEMPTS
    &&& match m.phase {
        Phase::ClearingByName | Phase::RemovingAdapter | Phase::Launching | Phase::Verifying(_)
        | Phase::Crashed => m.child is None,
        Phase::AskedToEnd(pid) | Phase::LastCheck(pid) | Phase::Watching(pid) => m.child == Some(
            pid,
        ),
        Phase::Grace { pid, left } => m.child == Some(pid) && left < GRACE_CHECKS,
        Phase::Vanishing { pid, left } => m.child == Some(pid) && left < VANISH_CHECKS,
        _ => true,
    }
}

/// The event is one that the manager is waiting for.
pub open spec fn manager_expects(m: ManagerState, event: ManagerEvent) -> bool {
    match m.phase {
        Phase::Idle => event is Command || event is Tick,
        Phase::Installing(_) => event is Installed,
        Phase::CheckingApp | Phase::CheckingConfig => event is Exists,
        Phase::ClearingByName | Phase::RemovingAdapter | Phase::AskedToEnd(_) | Phase::Forced
        | Phase::EndingAll => event is Ran,
        Phase::Launching => event is Launched,
        Phase::Verifying(_) | Phase::Grace { .. } | Phase::LastCheck(_) => event is Alive,
        Phase::ForcedPause | Phase::Crashed => event is Slept,
        Phase::Vanishing { .. } | Phase::Watching(_) => event is Processes,
    }
}

/// The step after which the manager waits for a command again.
pub open spec fn done(m: ManagerState, effects: Seq<Effect<Seq<char>>>) -> ManagerStep {
    (Manager { phase: Phase::Idle, ..m }, effects, Ask::Nothing)
}

/// The child cannot be started for want of a file or of a process: the tray is told,
/// unless an automatic start is going on.
pub open spec fn start_refused(m: ManagerState) -> ManagerStep {
    done(
        m,
        if m.pending {
            seq![]
        } else {
            seq![Effect::ShowRunning(false)]
        },
    )
}

/// The child was launched but does not run. An automatic start tries again, each time
/// after two seconds more, until its attempts are used up and the user is asked; any
/// other start gives up.
pub open spec fn launch_failed(m: ManagerState) -> ManagerStep {
    if !m.pending {
        done(
            m,
            seq![Effect::Icon(IconCommand::StopRain), Effect::ShowRunning(false), Effect::DropLaunched],
        )
    } else if m.attempts + 1 < AUTO_START_ATTEMPTS {
        done(
            Manager { attempts: (m.attempts + 1) as u64, ..m },
            seq![Effect::StartAfter((2 + m.attempts * 2) as u64), Effect::DropLaunched],
        )
    } else {
        done(
            Manager { attempts: 0, pending: false, ..m },
            seq![Effect::Dialog(DialogCommand::RetryAutoStart), Effect::DropLaunched],
        )
    }
}

/// The child runs.
pub open spec fn launch_succeeded(m: ManagerState, pid: u32) -> ManagerStep {
    done(
        Manager { child: Some(pid), dialog_shown: false, attempts: 0, pending: false, ..m },
        seq![
            Effect::KeepLaunched,
            Effect::SetRunning(true),
            Effect::IconAfter(5, IconCommand::StopRain),
            Effect::ShowRunning(true),
        ],
    )
}

/// The child is let go of, and all processes that run the application are ended.
pub open spec fn end_all(m: ManagerState, effects: Seq<Effect<Seq<char>>>) -> ManagerStep {
    (
        Manager { phase: Phase::EndingAll, ..m },
        effects + seq![Effect::KillChild],
        Ask::Run(kill_by_name(m.app.file_name)),
    )
}

/// The child was stopped.
pub open spec fn stopped(m: ManagerState) -> ManagerStep {
    done(
        Manager { child: None, dialog_shown: false, ..m },
        seq![
            Effect::SetRunning(false),
            Effect::Icon(IconCommand::StopGlitch),
            Effect::ShowRunning(false),
        ],
    )
}

/// What a command starts.
pub open spec fn commanded(m: ManagerState, command: ChildCommand<Seq<char>>) -> ManagerStep {
    match command {
        ChildCommand::UpdateConfigPath(path) => done(Manager { cfg_path: path, ..m }, seq![]),
        ChildCommand::Install => (
            Manager { phase: Phase::Installing(m.app.file_stem), ..m },
            seq![Effect::Status(InstallStatus::Installing { app_name: m.app.file_stem })],
            Ask::Install(m.app.file_stem),
        ),
        ChildCommand::AutoStart => done(
            Manager { pending: true, attempts: 0, ..m },
            seq![Effect::Enqueue(ChildCommand::Start)],
        ),
        ChildCommand::Start => (
            Manager { phase: Phase::CheckingApp, ..m },
            seq![],
            Ask::Exists(m.app.path),
        ),
        ChildCommand::Stop => match m.child {
            Some(pid) => (
                Manager { phase: Phase::AskedToEnd(pid), ..m },
                seq![Effect::Icon(IconCommand::Glitch)],
                Ask::Run(kill_by_pid(pid, false)),
            ),
            None => end_all(m, seq![Effect::Icon(IconCommand::Glitch)]),
        },
    }
}

/// What the manager does on an event that it is waiting for.
pub open spec fn manager_step(m: ManagerState, event: ManagerEvent) -> ManagerStep {
    match (m.phase, event) {
        (Phase::Idle, Event::Command(command)) => commanded(m, command),
        (Phase::Idle, Event::Tick) => match m.child {
            Some(pid) => (
                Manager { phase: Phase::Watching(pid), ..m },
                seq![],
                Ask::Processes { delay_ms: 0 },
            ),
            None => done(m, seq![]),
        },
        (Phase::Installing(name), Event::Installed(Ok(target))) => done(
            Manager { app: target, ..m },
            seq![Effect::Status(InstallStatus::Installed { path: target.path, app_name: name })],
        ),
        (Phase::Installing(name), Event::Installed(Err(error))) => done(
            m,
            seq![Effect::Status(InstallStatus::Failed { app_name: name, error })],
        ),
        (Phase::CheckingApp, Event::Exists(exists)) => if exists {
            (
                Manager { phase: Phase::CheckingConfig, ..m },
                seq![],
                Ask::Exists(m.cfg_path),
            )
        } else {
            start_refused(m)
        },
        (Phase::CheckingConfig, Event::Exists(exists)) => if !exists {
            start_refused(m)
        } else if m.child is Some {
            done(m, seq![])
        } else {
            (
                Manager { phase: Phase::ClearingByName, ..m },
                seq![Effect::Icon(IconCommand::StartRain)],
                Ask::Run(kill_by_name(m.app.file_name)),
            )
        },
        (Phase::ClearingByName, Event::Ran) => (
            Manager { phase: Phase::RemovingAdapter, ..m },
            seq![],
            Ask::Run(powershell_bypass(REMOVE_TUN_SCRIPT@)),
        ),
        (Phase::RemovingAdapter, Event::Ran) => (
            Manager { phase: Phase::Launching, ..m },
            seq![],
            Ask::Launch(powershell_bypass(launch_script(m.app.path, m.cfg_path))),
        ),
        (Phase::Launching, Event::Launched(None)) => start_refused(m),
        (Phase::Launching, Event::Launched(Some(output))) => match number(trimmed(output)) {
            Some(pid) => (
                Manager { phase: Phase::Verifying(pid), ..m },
                seq![],
                Ask::Alive { pid, delay_ms: 0 },
            ),
            None => launch_failed(m),
        },
        (Phase::Verifying(pid), Event::Alive(alive)) => if alive {
            launch_succeeded(m, pid)
        } else {
            launch_failed(m)
        },
        (Phase::AskedToEnd(pid), Event::Ran) => (
            Manager { phase: Phase::Grace { pid, left: (GRACE_CHECKS - 1) as u32 }, ..m },
            seq![],
            Ask::Alive { pid, delay_ms: 250 },
        ),
        (Phase::Grace { pid, left }, Event::Alive(alive)) => if alive && left > 0 {
            (
                Manager { phase: Phase::Grace { pid, left: (left - 1) as u32 }, ..m },
                seq![],
                Ask::Alive { pid, delay_ms: 250 },
            )
        } else {
            (
                Manager { phase: Phase::LastCheck(pid), ..m },
                seq![],
                Ask::Alive { pid, delay_ms: 0 },
            )
        },
        (Phase::LastCheck(pid), Event::Alive(alive)) => if alive {
            (
                Manager { phase: Phase::Forced, ..m },
                seq![],
                Ask::Run(kill_by_pid(pid, true)),
            )
        } else {
            end_all(m, seq![])
        },
        (Phase::Forced, Event::Ran) => (
            Manager { phase: Phase::ForcedPause, ..m },
            seq![],
            Ask::Sleep { delay_ms: 1000 },
        ),
        (Phase::ForcedPause, Event::Slept) => end_all(m, seq![]),
        (Phase::EndingAll, Event::Ran) => match m.child {
            Some(pid) => (
                Manager { phase: Phase::Vanishing { pid, left: (VANISH_CHECKS - 1) as u32 }, ..m },
                seq![],
                Ask::Processes { delay_ms: 100 },
            ),
            None => stopped(m),
        },
        (Phase::Vanishing { pid, left }, Event::Processes(pids)) => if pids.contains(pid) && left
            > 0 {
            (
                Manager { phase: Phase::Vanishing { pid, left: (left - 1) as u32 }, ..m },
                seq![],
                Ask::Processes { delay_ms: 100 },
            )
        } else {
            stopped(m)
        },
        (Phase::Watching(pid), Event::Processes(pids)) => if pids.contains(pid) {
            done(m, seq![])
        } else {
            (
                Manager { child: None, phase: Phase::Crashed, ..m },
                seq![Effect::DropChild, Effect::SetRunning(false), Effect::ShowRunning(false)],
                Ask::Sleep { delay_ms: 1000 },
            )
        },
        (Phase::Crashed, Event::Slept) => if m.dialog_shown {
            done(m, seq![])
        } else {
            done(Manager { dialog_shown: true, ..m }, seq![Effect::AskRestart])
        },
        _ => arbitrary(),
    }
}

/// Tells whether a process is among the listed ones.
fn is_listed(pids: &Vec<u32>, pid: u32) -> (r: bool)
    ensures
        r == pids@.contains(pid),
{
    let mut i: usize = 0;
    while i < pids.len()
        invariant
            i <= pids.len(),
            forall|j: int| 0 <= j < i ==> pids@[j] != pid,
        decreases pids.len() - i,
    {
        if pids[i] == pid {
            assert(pids@[i as int] == pid);
            return true;
        }
        i = i + 1;
    }
    false
}

impl Manager {
    /// A manager without a child that waits for a command.
    pub fn new(app: AppTarget, cfg_path: String) -> (r: Manager)
        ensures
            r@ == (Manager {
                child: None,
                dialog_shown: false,
                app: app@,
                cfg_path: cfg_path@,
                attempts: 0,
                pending: false,
                phase: Phase::Idle,
            }),
            manager_wf(r@),
    {
        Manager {
            child: None,
            dialog_shown: false,
            app,
            cfg_path,
            attempts: 0,
            pending: false,
            phase: Phase::Idle,
        }
    }

    /// Starts what a command asks for.
    fn command(&mut self, command: ChildCommand) -> (r: (Vec<Effect>, Ask))
        requires
            manager_wf(old(self)@),
            old(self).phase is Idle,
        ensures
            (final(self)@, effect_views(r.0@), r.1@) == commanded(old(self)@, command@),
            manager_wf(final(self)@),
    {
        let ghost before = self@;
        let r: (Vec<Effect>, Ask) = match command {
            ChildCommand::UpdateConfigPath(path) => {
                self.cfg_path = path;
                (Vec::new(), Ask::Nothing)
            },
            ChildCommand::Install => {
                let name = self.app.file_stem.clone();
                self.phase = Phase::Installing(name.clone());
                (
                    vec![Effect::Status(InstallStatus::Installing { app_name: name.clone() })],
                    Ask::Install(name),
                )
            },
            ChildCommand::AutoStart => {
                self.pending = true;
                self.attempts = 0;
                (vec![Effect::Enqueue(ChildCommand::Start)], Ask::Nothing)
            },
            ChildCommand::Start => {
                self.phase = Phase::CheckingApp;
                (Vec::new(), Ask::Exists(self.app.path.clone()))
            },
            ChildCommand::Stop => {
                if let Some(pid) = self.child {
                    self.phase = Phase::AskedToEnd(pid);
                    (
                        vec![Effect::Icon(IconCommand::Glitch)],
                        Ask::Run(kill_by_pid_line(pid, false)),
                    )
                } else {
                    self.phase = Phase::EndingAll;
                    (
                        vec![Effect::Icon(IconCommand::Glitch), Effect::KillChild],
                        Ask::Run(kill_by_name_line(self.app.file_name.as_str())),
                    )
                }
            },
        };
        assert(effect_views(r.0@) =~= commanded(before, command@).1);
        r
    }

    /// Takes in that the child cannot be started for want of a file or of a process.
    fn refuse_start(&mut self) -> (r: (Vec<Effect>, Ask))
        requires
            manager_wf(old(self)@),
        ensures
            (final(self)@, effect_views(r.0@), r.1@) == start_refused(old(self)@),
            manager_wf(final(self)@),
    {
        self.phase = Phase::Idle;
        let effects = if self.pending {
            Vec::new()
        } else {
            vec![Effect::ShowRunning(false)]
        };
        assert(effect_views(effects@) =~= start_refused(old(self)@).1);
        (effects, Ask::Nothing)
    }

    /// Takes in that the child was launched but does not run.
    fn fail_launch(&mut self) -> (r: (Vec<Effect>, Ask))
        requires
            manager_wf(old(self)@),
        ensures
            (final(self)@, effect_views(r.0@), r.1@) == launch_failed(old(self)@),
            manager_wf(final(self)@),
    {
        self.phase = Phase::Idle;
        let effects = if !self.pending {
            vec![
                Effect::Icon(IconCommand::StopRain),
                Effect::ShowRunning(false),
                Effect::DropLaunched,
            ]
        } else {
            let delay_secs: u64 = 2 + self.attempts * 2;
            self.attempts = self.attempts + 1;
            if self.attempts < AUTO_START_ATTEMPTS {
                vec![Effect::StartAfter(delay_secs), Effect::DropLaunched]
            } else {
                self.pending = false;
                self.attempts = 0;
                vec![Effect::Dialog(DialogCommand::RetryAutoStart), Effect::DropLaunched]
            }
        };
        assert(effect_views(effects@) =~= launch_failed(old(self)@).1);
        (effects, Ask::Nothing)
    }

    /// Lets go of the child and has all processes ended that run the application.
    fn release_child(&mut self) -> (r: (Vec<Effect>, Ask))
        requires
            manager_wf(old(self)@),
        ensures
            (final(self)@, effect_views(r.0@), r.1@) == end_all(old(self)@, seq![]),
            manager_wf(final(self)@),
    {
        self.phase = Phase::EndingAll;
        let effects = vec![Effect::KillChild];
        assert(effect_views(effects@) =~= end_all(old(self)@, seq![]).1);
        (effects, Ask::Run(kill_by_name_line(self.app.file_name.as_str())))
    }

    /// Takes in that the child was stopped.
    fn finish_stop(&mut self) -> (r: (Vec<Effect>, Ask))
        requires
            manager_wf(old(self)@),
        ensures
            (final(self)@, effect_views(r.0@), r.1@) == stopped(old(self)@),
            manager_wf(final(self)@),
    {
        self.child = None;
        self.dialog_shown = false;
        self.phase = Phase::Idle;
        let effects = vec![
            Effect::SetRunning(false),
            Effect::Icon(IconCommand::StopGlitch),
            Effect::ShowRunning(false),
        ];
        assert(effect_views(effects@) =~= stopped(old(self)@).1);
        (effects, Ask::Nothing)
    }

    /// Takes in an event that the manager is waiting for, and decides what is to be done.
    pub fn step(&mut self, event: Event) -> (r: (Vec<Effect>, Ask))
        requires
            manager_wf(old(self)@),
            manager_expects(old(self)@, event@),
        ensures
            (final(self)@, effect_views(r.0@), r.1@) == manager_step(old(self)@, event@),
            manager_wf(final(self)@),
    {
        let ghost before = self@;
        let none: Vec<Effect> = Vec::new();
        assert(effect_views(none@) =~= seq![]);
        match event {
            Event::Command(command) => self.command(command),
            Event::Tick => {
                if let Some(pid) = self.child {
                    self.phase = Phase::Watching(pid);
                    (none, Ask::Processes { delay_ms: 0 })
                } else {
                    (none, Ask::Nothing)
                }
            },
            Event::Installed(outcome) => {
                let name = match &self.phase {
                    Phase::Installing(name) => name.clone(),
                    _ => String::new(),
                };
                self.phase = Phase::Idle;
                let status = match outcome {
                    Ok(target) => {
                        let path = target.path.clone();
                        self.app = target;
                        InstallStatus::Installed { path, app_name: name }
                    },
                    Err(error) => InstallStatus::Failed { app_name: name, error },
                };
                let effects = vec![Effect::Status(status)];
                assert(effect_views(effects@) =~= manager_step(before, event@).1);
                (effects, Ask::Nothing)
            },
            Event::Exists(exists) => {
                if !exists {
                    return self.refuse_start();
                }
                if let Phase::CheckingApp = self.phase {
                    self.phase = Phase::CheckingConfig;
                    return (none, Ask::Exists(self.cfg_path.clone()));
                }
                if self.child.is_some() {
                    self.phase = Phase::Idle;
                    return (none, Ask::Nothing);
                }
                self.phase = Phase::ClearingByName;
                let effects = vec![Effect::Icon(IconCommand::StartRain)];
                assert(effect_views(effects@) =~= manager_step(before, event@).1);
                (effects, Ask::Run(kill_by_name_line(self.app.file_name.as_str())))
            },
            Event::Ran => match self.phase {
                Phase::ClearingByName => {
                    self.phase = Phase::RemovingAdapter;
                    (none, Ask::Run(powershell_bypass_line(REMOVE_TUN_SCRIPT)))
                },
                Phase::RemovingAdapter => {
                    self.phase = Phase::Launching;
                    let line = launch_line(self.app.path.as_str(), self.cfg_path.as_str());
                    (none, Ask::Launch(line))
                },
                Phase::AskedToEnd(pid) => {
                    self.phase = Phase::Grace { pid, left: GRACE_CHECKS - 1 };
                    (none, Ask::Alive { pid, delay_ms: 250 })
                },
                Phase::Forced => {
                    self.phase = Phase::ForcedPause;
                    (none, Ask::Sleep { delay_ms: 1000 })
                },
                _ => {
                    if let Some(pid) = self.child {
                        self.phase = Phase::Vanishing { pid, left: VANISH_CHECKS - 1 };
                        (none, Ask::Processes { delay_ms: 100 })
                    } else {
                        self.finish_stop()
                    }
                },
            },
            Event::Launched(output) => match output {
                None => self.refuse_start(),
                Some(output) => match parse_number(trim(output.as_str())) {
                    Some(pid) => {
                        self.phase = Phase::Verifying(pid);
                        (none, Ask::Alive { pid, delay_ms: 0 })
                    },
                    None => self.fail_launch(),
                },
            },
            Event::Alive(alive) => match self.phase {
                Phase::Verifying(pid) => {
                    if !alive {
                        return self.fail_launch();
                    }
                    self.child = Some(pid);
                    self.dialog_shown = false;
                    self.attempts = 0;
                    self.pending = false;
                    self.phase = Phase::Idle;
                    let effects = vec![
                        Effect::KeepLaunched,
                        Effect::SetRunning(true),
                        Effect::IconAfter(5, IconCommand::StopRain),
                        Effect::ShowRunning(true),
                    ];
                    assert(effect_views(effects@) =~= manager_step(before, event@).1);
                    (effects, Ask::Nothing)
                },
                Phase::Grace { pid, left } => {
                    if alive && left > 0 {
                        self.phase = Phase::Grace { pid, left: left - 1 };
                        (none, Ask::Alive { pid, delay_ms: 250 })
                    } else {
                        self.phase = Phase::LastCheck(pid);
                        (none, Ask::Alive { pid, delay_ms: 0 })
                    }
                },
                Phase::LastCheck(pid) => {
                    if alive {
                        self.phase = Phase::Forced;
                        (none, Ask::Run(kill_by_pid_line(pid, true)))
                    } else {
                        self.release_child()
                    }
                },
                _ => (none, Ask::Nothing),
            },
            Event::Processes(pids) => match self.phase {
                Phase::Vanishing { pid, left } => {
                    if is_listed(&pids, pid) && left > 0 {
                        self.phase = Phase::Vanishing { pid, left: left - 1 };
                        (none, Ask::Processes { delay_ms: 100 })
                    } else {
                        self.finish_stop()
                    }
                },
                Phase::Watching(pid) => {
                    if is_listed(&pids, pid) {
                        self.phase = Phase::Idle;
                        return (none, Ask::Nothing);
                    }
                    self.child = None;
                    self.phase = Phase::Crashed;
                    let effects = vec![
                        Effect::DropChild,
                        Effect::SetRunning(false),
                        Effect::ShowRunning(false),
                    ];
                    assert(effect_views(effects@) =~= manager_step(before, event@).1);
                    (effects, Ask::Sleep { delay_ms: 1000 })
                },
                _ => (none, Ask::Nothing),
            },
            Event::Slept => {
                if let Phase::ForcedPause = self.phase {
                    return self.release_child();
                }
                self.phase = Phase::Idle;
                if self.dialog_shown {
                    return (none, Ask::Nothing);
                }
                self.dialog_shown = true;
                let effects = vec![Effect::AskRestart];
                assert(effect_views(effects@) =~= manager_step(before, event@).1);
                (effects, Ask::Nothing)
            },
        }
    }
}

} // verus!
