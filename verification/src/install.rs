//! Installing an application: all package managers are asked for their versions, then they
//! are tried in turn until one succeeds, and the executable is looked for then.

use vstd::prelude::*;

use crate::command::{ask_version, install_line, method_name, CommandLine, Invocation, Method};
use crate::text::option_view;

verus! {

/// How many seconds a package manager may take.
pub const INSTALL_TIMEOUT_SECS: u64 = 60;

/// What is being done.
#[derive(Clone, Copy, PartialEq, Eq, Structural, Debug)]
pub enum InstallStage {
    /// The package manager is asked for its version, for the record only.
    Surveying(Method),
    /// The package manager is asked for its version.
    Asking(Method),
    /// The package manager installs.
    Running(Method),
    /// The executable is looked for that the package manager installed.
    Searching(Method),
    /// Nothing.
    Finished,
}

/// What came of what was to be done.
#[derive(Debug, PartialEq, Eq)]
pub enum InstallEvent<S = String> {
    /// Whether asking for the version succeeded; nothing if the program could not be run.
    Version(Option<bool>),
    /// Whether the package manager succeeded; nothing if it could not be run, could not be
    /// waited for, or took too long.
    Ran(Option<bool>),
    /// Where the executable is, if it was found.
    Searched(Option<S>),
}

/// What is to be done next.
#[derive(Debug, PartialEq, Eq)]
pub enum InstallAsk<S = String, L = Invocation> {
    /// Ask a package manager for its version.
    Version(L),
    /// Run a package manager for so many seconds at most.
    Run { line: L, timeout_secs: u64 },
    /// Look for the executable of the application with this name.
    Search(S),
    /// Nothing: the executable is there, or there is none, for this reason.
    Done(Result<S, S>),
}

/// An installation.
#[derive(Debug, PartialEq, Eq)]
pub struct Installer<S = String> {
    pub app_name: S,
    pub stage: InstallStage,
}

/// What is to be done next, in contracts.
pub type InstallAskView = InstallAsk<Seq<char>, CommandLine>;

impl View for InstallEvent {
    type V = InstallEvent<Seq<char>>;

    open spec fn view(&self) -> InstallEvent<Seq<char>> {
        match self {
            InstallEvent::Version(succeeded) => InstallEvent::Version(*succeeded),
            InstallEvent::Ran(succeeded) => InstallEvent::Ran(*succeeded),
            InstallEvent::Searched(path) => InstallEvent::Searched(option_view(*path)),
        }
    }
}

impl View for InstallAsk {
    type V = InstallAskView;

    open spec fn view(&self) -> InstallAskView {
        match self {
            InstallAsk::Version(line) => InstallAsk::Version(line@),
            InstallAsk::Run { line, timeout_secs } => InstallAsk::Run {
                line: line@,
                timeout_secs: *timeout_secs,
            },
            InstallAsk::Search(name) => InstallAsk::Search(name@),
            InstallAsk::Done(Ok(path)) => InstallAsk::Done(Ok(path@)),
            InstallAsk::Done(Err(message)) => InstallAsk::Done(Err(message@)),
        }
    }
}

impl View for Installer {
    type V = Installer<Seq<char>>;

    open spec fn view(&self) -> Installer<Seq<char>> {
        Installer { app_name: self.app_name@, stage: self.stage }
    }
}

/// The package manager that is tried after another.
pub open spec fn method_after(method: Method) -> Option<Method> {
    match method {
        Method::Winget => Some(Method::Choco),
        Method::Choco => Some(Method::Scoop),
        Method::Scoop => None,
    }
}

/// A package manager is asked for its version for the record, or the first one is tried.
pub open spec fn survey(app_name: Seq<char>, method: Option<Method>) -> (
    Installer<Seq<char>>,
    InstallAskView,
) {
    match method {
        Some(method) => (
            Installer { app_name, stage: InstallStage::Surveying(method) },
            InstallAsk::Version(ask_version(method)),
        ),
        None => try_method(app_name, Some(Method::Winget)),
    }
}

/// A package manager is tried, or there is none left.
pub open spec fn try_method(app_name: Seq<char>, method: Option<Method>) -> (
    Installer<Seq<char>>,
    InstallAskView,
) {
    match method {
        Some(method) => (
            Installer { app_name, stage: InstallStage::Asking(method) },
            InstallAsk::Version(ask_version(method)),
        ),
        None => (
            Installer { app_name, stage: InstallStage::Finished },
            InstallAsk::Done(Err("No installation method succeeded"@)),
        ),
    }
}

/// The event is one that the installation is waiting for.
pub open spec fn install_expects<S>(stage: InstallStage, event: InstallEvent<S>) -> bool {
    match stage {
        InstallStage::Surveying(_) | InstallStage::Asking(_) => event is Version,
        InstallStage::Running(_) => event is Ran,
        InstallStage::Searching(_) => event is Searched,
        InstallStage::Finished => false,
    }
}

/// What follows an event. After all package managers were asked for the record, the first
/// one is tried, whatever they answered. To try one, it is asked again; if it answers, it is
/// run; when it succeeds, the executable is looked for, and that decides; else the next one
/// is tried.
pub open spec fn install_step(s: Installer<Seq<char>>, event: InstallEvent<Seq<char>>) -> (
    Installer<Seq<char>>,
    InstallAskView,
) {
    match (s.stage, event) {
        (InstallStage::Surveying(method), InstallEvent::Version(_)) => survey(
            s.app_name,
            method_after(method),
        ),
        (InstallStage::Asking(method), InstallEvent::Version(succeeded)) => if succeeded == Some(
            true,
        ) {
            (
                Installer { stage: InstallStage::Running(method), ..s },
                InstallAsk::Run {
                    line: install_line(method, s.app_name),
                    timeout_secs: INSTALL_TIMEOUT_SECS,
                },
            )
        } else {
            try_method(s.app_name, method_after(method))
        },
        (InstallStage::Running(method), InstallEvent::Ran(succeeded)) => if succeeded == Some(
            true,
        ) {
            (
                Installer { stage: InstallStage::Searching(method), ..s },
                InstallAsk::Search(s.app_name),
            )
        } else {
            try_method(s.app_name, method_after(method))
        },
        (InstallStage::Searching(method), InstallEvent::Searched(found)) => (
            Installer { stage: InstallStage::Finished, ..s },
            InstallAsk::Done(
                match found {
                    Some(path) => Ok(path),
                    None => Err("Binary not found after "@ + method_name(method) + " install"@),
                },
            ),
        ),
        _ => arbitrary(),
    }
}

/// Begins to install an application.
pub fn install_app(app_name: &str) -> (r: (Installer, InstallAsk))
    ensures
        (r.0@, r.1@) == survey(app_name@, Some(Method::Winget)),
{
    (
        Installer { app_name: app_name.to_string(), stage: InstallStage::Surveying(Method::Winget) },
        InstallAsk::Version(Method::Winget.version_line()),
    )
}

/// Tells whether a package manager is there, given whether asking for its version
/// succeeded; nothing if it could not be asked.
pub fn is_available(succeeded: Option<bool>) -> (r: bool)
    ensures
        r == (succeeded == Some(true)),
{
    match succeeded {
        Some(succeeded) => succeeded,
        None => false,
    }
}

impl Installer {
    /// Goes on to ask the package manager after this one for the record.
    fn survey_next(&mut self, method: Method) -> (r: InstallAsk)
        ensures
            (final(self)@, r@) == survey(old(self)@.app_name, method_after(method)),
    {
        let next = match method {
            Method::Winget => Method::Choco,
            Method::Choco => Method::Scoop,
            Method::Scoop => {
                self.stage = InstallStage::Asking(Method::Winget);
                return InstallAsk::Version(Method::Winget.version_line());
            },
        };
        self.stage = InstallStage::Surveying(next);
        InstallAsk::Version(next.version_line())
    }

    /// Goes on with the package manager after this one.
    fn next_method(&mut self, method: Method) -> (r: InstallAsk)
        ensures
            (final(self)@, r@) == try_method(old(self)@.app_name, method_after(method)),
    {
        let next = match method {
            Method::Winget => Method::Choco,
            Method::Choco => Method::Scoop,
            Method::Scoop => {
                self.stage = InstallStage::Finished;
                return InstallAsk::Done(Err("No installation method succeeded".to_string()));
            },
        };
        self.stage = InstallStage::Asking(next);
        InstallAsk::Version(next.version_line())
    }

    /// Takes in an event that the installation is waiting for, and decides what follows.
    pub fn step(&mut self, event: InstallEvent) -> (r: InstallAsk)
        requires
            install_expects(old(self).stage, event),
        ensures
            (final(self)@, r@) == install_step(old(self)@, event@),
            r is Done == (final(self).stage is Finished),
    {
        match (self.stage, event) {
            (InstallStage::Surveying(method), InstallEvent::Version(_)) => self.survey_next(method),
            (InstallStage::Asking(method), InstallEvent::Version(succeeded)) => {
                if !is_available(succeeded) {
                    return self.next_method(method);
                }
                self.stage = InstallStage::Running(method);
                InstallAsk::Run {
                    line: method.install_line(self.app_name.as_str()),
                    timeout_secs: INSTALL_TIMEOUT_SECS,
                }
            },
            (InstallStage::Running(method), InstallEvent::Ran(succeeded)) => match succeeded {
                Some(true) => {
                    self.stage = InstallStage::Searching(method);
                    InstallAsk::Search(self.app_name.clone())
                },
                _ => self.next_method(method),
            },
            (InstallStage::Searching(method), InstallEvent::Searched(found)) => {
                self.stage = InstallStage::Finished;
                match found {
                    Some(path) => InstallAsk::Done(Ok(path)),
                    None => InstallAsk::Done(
                        Err(
                            "Binary not found after ".to_string().concat(method.name()).concat(
                                " install",
                            ),
                        ),
                    ),
                }
            },
            _ => {
                assert(false);
                InstallAsk::Search(String::new())
            },
        }
    }
}

/// What the package managers would do, and where the executable would be found.
pub struct InstallWorld {
    /// Whether asking for the version succeeds the first time, if the program can be run.
    pub surveyed: spec_fn(Method) -> Option<bool>,
    /// Whether it does when the package manager is tried.
    pub version: spec_fn(Method) -> Option<bool>,
    /// Whether installing succeeds, if it comes to an end in time.
    pub ran: spec_fn(Method) -> Option<bool>,
    /// Where the executable is found after this package manager installed it.
    pub found: spec_fn(Method) -> Option<Seq<char>>,
}

/// What comes of what is to be done.
pub open spec fn install_answer(world: InstallWorld, stage: InstallStage) -> InstallEvent<
    Seq<char>,
> {
    match stage {
        InstallStage::Surveying(method) => InstallEvent::Version((world.surveyed)(method)),
        InstallStage::Asking(method) => InstallEvent::Version((world.version)(method)),
        InstallStage::Running(method) => InstallEvent::Ran((world.ran)(method)),
        InstallStage::Searching(method) => InstallEvent::Searched((world.found)(method)),
        InstallStage::Finished => arbitrary(),
    }
}

/// An installation after so many more events, or where it ended.
pub open spec fn install_run(
    world: InstallWorld,
    at: (Installer<Seq<char>>, InstallAskView),
    events: nat,
) -> (Installer<Seq<char>>, InstallAskView)
    decreases events,
{
    if events == 0 || at.1 is Done {
        at
    } else {
        install_run(
            world,
            install_step(at.0, install_answer(world, at.0.stage)),
            (events - 1) as nat,
        )
    }
}

/// What an installation comes to from a package manager on: the first that is there and
/// succeeds decides.
pub open spec fn install_outcome(world: InstallWorld, method: Option<Method>) -> Result<
    Seq<char>,
    Seq<char>,
>
    decreases
            match method {
                Some(Method::Winget) => 3int,
                Some(Method::Choco) => 2,
                Some(Method::Scoop) => 1,
                None => 0,
            },
{
    match method {
        None => Err("No installation method succeeded"@),
        Some(method) => if (world.version)(method) == Some(true) && (world.ran)(method) == Some(
            true,
        ) {
            match (world.found)(method) {
                Some(path) => Ok(path),
                None => Err("Binary not found after "@ + method_name(method) + " install"@),
            }
        } else {
            install_outcome(world, method_after(method))
        },
    }
}

/// An installation comes to an end after ten events at most, with what the first package
/// manager decides that is there when it is tried and succeeds, or with an error if there is
/// none.
pub proof fn law_first_successful_method_decides(world: InstallWorld, app_name: Seq<char>)
    ensures
        install_run(world, survey(app_name, Some(Method::Winget)), 10).1 == InstallAskView::Done(
            install_outcome(world, Some(Method::Winget)),
        ),
{
    reveal_with_fuel(install_run, 11);
    reveal_with_fuel(install_outcome, 4);
}

/// The package manager is there when it is tried, and installs.
pub open spec fn installs(world: InstallWorld, method: Method) -> bool {
    (world.version)(method) == Some(true) && (world.ran)(method) == Some(true)
}

/// What comes of an installation by a package manager with this name.
pub open spec fn outcome_by(world: InstallWorld, method: Method, name: Seq<char>) -> Result<
    Seq<char>,
    Seq<char>,
> {
    match (world.found)(method) {
        Some(path) => Ok(path),
        None => Err("Binary not found after "@ + name + " install"@),
    }
}

/// Winget is tried first, then Chocolatey, then Scoop. The first of them that installs
/// decides: what was found is the result, or it is an error that nothing was. If none of the
/// three installs, that is an error too.
pub proof fn law_package_managers_are_tried_in_order(world: InstallWorld, app_name: Seq<char>)
    ensures
        install_run(world, survey(app_name, Some(Method::Winget)), 10).1 == InstallAskView::Done(
            if installs(world, Method::Winget) {
                outcome_by(world, Method::Winget, "winget"@)
            } else if installs(world, Method::Choco) {
                outcome_by(world, Method::Choco, "choco"@)
            } else if installs(world, Method::Scoop) {
                outcome_by(world, Method::Scoop, "scoop"@)
            } else {
                Err("No installation method succeeded"@)
            },
        ),
{
    reveal_with_fuel(install_run, 11);
}

/// A package manager is run only when it answered, with its own command line for the
/// application, for a minute at most; the executable is looked for only when it succeeded,
/// by the application's name. The name stays the same throughout.
pub proof fn law_only_what_answers_is_run(
    s: Installer<Seq<char>>,
    event: InstallEvent<Seq<char>>,
    method: Method,
)
    requires
        install_expects(s.stage, event),
    ensures
        install_step(s, event).0.app_name == s.app_name,
        s.stage == InstallStage::Asking(method) && event == InstallEvent::<Seq<char>>::Version(
            Some(true),
        ) ==> install_step(s, event) == (
            Installer { app_name: s.app_name, stage: InstallStage::Running(method) },
            InstallAskView::Run { line: install_line(method, s.app_name), timeout_secs: 60 },
        ),
        install_step(s, event).1 is Run ==> s.stage is Asking && event == InstallEvent::<
            Seq<char>,
        >::Version(Some(true)),
        s.stage == InstallStage::Running(method) && event == InstallEvent::<Seq<char>>::Ran(
            Some(true),
        ) ==> install_step(s, event) == (
            Installer { app_name: s.app_name, stage: InstallStage::Searching(method) },
            InstallAskView::Search(s.app_name),
        ),
        install_step(s, event).1 is Search ==> s.stage is Running && event == InstallEvent::<
            Seq<char>,
        >::Ran(Some(true)),
{
}

/// Before any is tried, each of the three package managers is asked for its version, and what
/// it answers does not matter.
pub proof fn law_all_package_managers_are_asked_first(world: InstallWorld, app_name: Seq<char>)
    ensures
        ({
            let start = survey(app_name, Some(Method::Winget));
            &&& start.1 == InstallAskView::Version(ask_version(Method::Winget))
            &&& install_run(world, start, 1).1 == InstallAskView::Version(
                ask_version(Method::Choco),
            )
            &&& install_run(world, start, 2).1 == InstallAskView::Version(
                ask_version(Method::Scoop),
            )
            &&& install_run(world, start, 3) == (
                Installer { app_name, stage: InstallStage::Asking(Method::Winget) },
                InstallAskView::Version(ask_version(Method::Winget)),
            )
        }),
{
    reveal_with_fuel(install_run, 4);
}

} // verus!
