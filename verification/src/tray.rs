//! The tray: the texts of its menu, what a click leads to, and what its icon shows.

use vstd::prelude::*;

use crate::command::{edit_file, edit_line, CommandLine, Invocation};
use crate::config::DEFAULT_CONFIG_NAME;
use crate::manager::{ChildCommand, DialogCommand, Frame, IconCommand, InstallStatus};
use crate::setup::answer_view;
use crate::text::{occurs_in, option_view};

verus! {

/// The tray icon's tooltip.
pub const TOOLTIP: &'static str = "Rust Box";

/// The title of a message that something failed.
pub const ERROR_TITLE: &'static str = "Rust Box - Error";

/// The title of a message that something is missing.
pub const INFO_TITLE: &'static str = "Rust Box - Info";

/// The title of the question whether to try an automatic start again.
pub const RETRY_TITLE: &'static str = "Rust Box - Auto-start";

/// The question whether to try an automatic start again.
pub const RETRY_MESSAGE: &'static str = "Auto-start failed after 5 attempts. Retry?";

/// The question whether to restart the child.
pub const RESTART_MESSAGE: &'static str =
    "The application has crashed or terminated unexpectedly.\nDo you want to restart it?";

/// What is said when there is an application but no configuration to run it with.
pub const NO_CONFIG_MESSAGE: &'static str =
    "Application installed, but config file missing. Please select config.";

/// For how many milliseconds a picture of an animation is shown.
pub const FRAME_MS: u64 = 350;

/// What a message box answers when its button for yes was pressed.
pub const ANSWER_YES: i32 = 6;

/// An animation of the tray icon.
#[derive(Clone, Copy, PartialEq, Eq, Structural, Debug)]
pub enum Animation {
    /// The child is being started.
    Rain,
    /// The child is being stopped.
    Glitch,
    /// The application is being installed.
    Progress,
}

/// The tray.
#[derive(Debug, PartialEq, Eq)]
pub struct Tray<S = String> {
    /// The application's name.
    pub file_stem: S,
    /// The configuration that the application is run with.
    pub cfg_path: S,
    /// The application is installed.
    pub installed: bool,
}

/// What the menu shows at first, and what is to be done at first.
#[derive(Debug, PartialEq, Eq)]
pub struct Startup<S = String, C = Vec<ChildCommand>> {
    pub start_text: S,
    pub json_text: S,
    pub autostart_text: S,
    pub autostart_enabled: bool,
    pub commands: C,
}

/// What happened.
#[derive(Debug, PartialEq, Eq)]
pub enum TrayEvent<S = String> {
    /// The manager says whether to show the child as running.
    Running(bool),
    /// The manager says how the installation goes.
    Status(InstallStatus<S>),
    /// The icon is to do something.
    Icon(IconCommand),
    /// The item that installs, starts and stops was clicked.
    StartClicked { cfg_exists: bool, running: bool },
    /// The item that switches the automatic start was clicked; it is on or off so far.
    AutostartClicked { enabled: bool },
    /// The automatic start was to be switched on or off.
    AutostartChanged { enable: bool, outcome: Result<(), S> },
    /// The item that opens the settings file was clicked.
    ConfigClicked,
    /// The item that starts the tray application anew was clicked.
    ReloadClicked,
    /// The item that opens or picks the configuration was clicked.
    JsonClicked { cfg_exists: bool },
    /// A configuration was picked, or none.
    JsonPicked(Option<S>),
    /// The path of a configuration was to be saved in the settings file.
    JsonSaved { path: S, outcome: Result<(), S> },
    /// The item that ends the tray application was clicked.
    QuitClicked,
    /// A dialog decided something.
    Dialog(DialogCommand),
    /// The question whether to try an automatic start again was answered.
    RetryAnswered(i32),
    /// The icon was clicked.
    IconClicked { left: bool },
}

/// What is to be done.
#[derive(Debug, PartialEq, Eq)]
pub enum TrayAction<S = String, L = Invocation> {
    StartText(S),
    StartEnabled(bool),
    JsonText(S),
    JsonEnabled(bool),
    AutostartText(S),
    AutostartEnabled(bool),
    /// Tell the icon, in its turn, what to do.
    Icon(IconCommand),
    /// End the animation that runs, if one does.
    StopAnimation,
    /// Begin an animation.
    StartAnimation(Animation),
    /// Show a picture.
    Show(Frame),
    /// Give the manager a command.
    Send(ChildCommand<S>),
    /// Show a message.
    Message { title: S, text: S },
    /// Switch the automatic start on or off, and say what came of it.
    SetAutostart(bool),
    /// Run a program and leave it running.
    Spawn(L),
    /// Let the user pick a configuration.
    PickFile,
    /// Save the path of a configuration in the settings file, and say what came of it.
    SaveCfgPath(S),
    /// Ask whether to try an automatic start again.
    AskRetry,
    /// Wait for so many milliseconds.
    Sleep(u64),
    /// Start the tray application anew.
    Respawn,
    /// End the tray application.
    Exit,
    /// Show the menu.
    ShowMenu,
}

/// An action, in contracts.
pub type ActionView = TrayAction<Seq<char>, CommandLine>;

impl View for Tray {
    type V = Tray<Seq<char>>;

    open spec fn view(&self) -> Tray<Seq<char>> {
        Tray { file_stem: self.file_stem@, cfg_path: self.cfg_path@, installed: self.installed }
    }
}

impl View for Startup {
    type V = Startup<Seq<char>, Seq<ChildCommand<Seq<char>>>>;

    open spec fn view(&self) -> Startup<Seq<char>, Seq<ChildCommand<Seq<char>>>> {
        Startup {
            start_text: self.start_text@,
            json_text: self.json_text@,
            autostart_text: self.autostart_text@,
            autostart_enabled: self.autostart_enabled,
            commands: self.commands@.map_values(|c: ChildCommand| c@),
        }
    }
}

impl View for TrayEvent {
    type V = TrayEvent<Seq<char>>;

    open spec fn view(&self) -> TrayEvent<Seq<char>> {
        match self {
            TrayEvent::Running(running) => TrayEvent::Running(*running),
            TrayEvent::Status(status) => TrayEvent::Status(status@),
            TrayEvent::Icon(command) => TrayEvent::Icon(*command),
            TrayEvent::StartClicked { cfg_exists, running } => TrayEvent::StartClicked {
                cfg_exists: *cfg_exists,
                running: *running,
            },
            TrayEvent::AutostartClicked { enabled } => TrayEvent::AutostartClicked {
                enabled: *enabled,
            },
            TrayEvent::AutostartChanged { enable, outcome } => TrayEvent::AutostartChanged {
                enable: *enable,
                outcome: answer_view(*outcome),
            },
            TrayEvent::ConfigClicked => TrayEvent::ConfigClicked,
            TrayEvent::ReloadClicked => TrayEvent::ReloadClicked,
            TrayEvent::JsonClicked { cfg_exists } => TrayEvent::JsonClicked {
                cfg_exists: *cfg_exists,
            },
            TrayEvent::JsonPicked(path) => TrayEvent::JsonPicked(option_view(*path)),
            TrayEvent::JsonSaved { path, outcome } => TrayEvent::JsonSaved {
                path: path@,
                outcome: answer_view(*outcome),
            },
            TrayEvent::QuitClicked => TrayEvent::QuitClicked,
            TrayEvent::Dialog(command) => TrayEvent::Dialog(*command),
            TrayEvent::RetryAnswered(answer) => TrayEvent::RetryAnswered(*answer),
            TrayEvent::IconClicked { left } => TrayEvent::IconClicked { left: *left },
        }
    }
}

impl View for TrayAction {
    type V = ActionView;

    open spec fn view(&self) -> ActionView {
        match self {
            TrayAction::StartText(text) => TrayAction::StartText(text@),
            TrayAction::StartEnabled(enabled) => TrayAction::StartEnabled(*enabled),
            TrayAction::JsonText(text) => TrayAction::JsonText(text@),
            TrayAction::JsonEnabled(enabled) => TrayAction::JsonEnabled(*enabled),
            TrayAction::AutostartText(text) => TrayAction::AutostartText(text@),
            TrayAction::AutostartEnabled(enabled) => TrayAction::AutostartEnabled(*enabled),
            TrayAction::Icon(command) => TrayAction::Icon(*command),
            TrayAction::StopAnimation => TrayAction::StopAnimation,
            TrayAction::StartAnimation(animation) => TrayAction::StartAnimation(*animation),
            TrayAction::Show(frame) => TrayAction::Show(*frame),
            TrayAction::Send(command) => TrayAction::Send(command@),
            TrayAction::Message { title, text } => TrayAction::Message {
                title: title@,
                text: text@,
            },
            TrayAction::SetAutostart(enable) => TrayAction::SetAutostart(*enable),
            TrayAction::Spawn(line) => TrayAction::Spawn(line@),
            TrayAction::PickFile => TrayAction::PickFile,
            TrayAction::SaveCfgPath(path) => TrayAction::SaveCfgPath(path@),
            TrayAction::AskRetry => TrayAction::AskRetry,
            TrayAction::Sleep(ms) => TrayAction::Sleep(*ms),
            TrayAction::Respawn => TrayAction::Respawn,
            TrayAction::Exit => TrayAction::Exit,
            TrayAction::ShowMenu => TrayAction::ShowMenu,
        }
    }
}

/// The contents of actions.
pub open spec fn action_views(actions: Seq<TrayAction>) -> Seq<ActionView> {
    actions.map_values(|a: TrayAction| a@)
}

/// The text of the item that starts the application.
pub open spec fn start_label(name: Seq<char>) -> Seq<char> {
    "▶ Start ["@ + name + "]"@
}

/// The text of the same item while the application runs.
pub open spec fn stop_label(name: Seq<char>) -> Seq<char> {
    "◼ Stop ["@ + name + "]"@
}

/// The text of the same item while the application is not installed.
pub open spec fn install_label(name: Seq<char>) -> Seq<char> {
    "⤵ Install ["@ + name + "]"@
}

/// The text of the same item while the application is being installed.
pub open spec fn installing_label(name: Seq<char>) -> Seq<char> {
    "Installing ["@ + name + "]..."@
}

/// The text of the item that opens the configuration.
pub open spec fn json_label(name: Seq<char>) -> Seq<char> {
    "Open json ["@ + name + "]"@
}

/// The text of the item that switches the automatic start.
pub open spec fn autostart_label(enabled: bool) -> Seq<char> {
    if enabled {
        "Auto-start: [ON]-OFF"@
    } else {
        "Auto-start: ON-[OFF]"@
    }
}

/// What the menu shows at first, and what is to be done at first: the child is started
/// if that is to happen automatically and everything is there.
pub open spec fn startup_of(
    file_stem: Seq<char>,
    installed: bool,
    cfg_exists: bool,
    autostart: bool,
) -> Startup<Seq<char>, Seq<ChildCommand<Seq<char>>>> {
    Startup {
        start_text: if installed {
            start_label(file_stem)
        } else {
            install_label(file_stem)
        },
        json_text: if cfg_exists {
            json_label(file_stem)
        } else {
            "Select json file"@
        },
        autostart_text: autostart_label(autostart),
        autostart_enabled: installed,
        commands: if autostart && installed && cfg_exists {
            seq![ChildCommand::AutoStart]
        } else {
            seq![]
        },
    }
}

/// What is to be done as the installation goes.
pub open spec fn status_actions(status: InstallStatus<Seq<char>>) -> Seq<ActionView> {
    match status {
        InstallStatus::Installing { app_name } => seq![
            TrayAction::StartText(installing_label(app_name)),
            TrayAction::StartEnabled(false),
            TrayAction::Icon(IconCommand::InstallProgress),
        ],
        InstallStatus::Installed { path, app_name } => seq![
            TrayAction::StopAnimation,
            TrayAction::Icon(IconCommand::Restore),
            TrayAction::StartText(start_label(app_name)),
            TrayAction::StartEnabled(true),
            TrayAction::JsonEnabled(true),
            TrayAction::AutostartEnabled(true),
        ],
        InstallStatus::Failed { app_name, error } => seq![
            TrayAction::StopAnimation,
            TrayAction::Icon(IconCommand::Restore),
            TrayAction::StartText(install_label(app_name)),
            TrayAction::StartEnabled(true),
        ],
    }
}

/// What the icon is to do.
pub open spec fn icon_actions(command: IconCommand) -> Seq<ActionView> {
    match command {
        IconCommand::Restore | IconCommand::StopGlitch => seq![
            TrayAction::StopAnimation,
            TrayAction::Show(Frame::Original),
        ],
        IconCommand::StopRain => seq![TrayAction::StopAnimation, TrayAction::Show(Frame::Green)],
        IconCommand::StartRain => seq![
            TrayAction::StopAnimation,
            TrayAction::StartAnimation(Animation::Rain),
        ],
        IconCommand::Glitch => seq![
            TrayAction::StopAnimation,
            TrayAction::StartAnimation(Animation::Glitch),
        ],
        IconCommand::InstallProgress => seq![
            TrayAction::StopAnimation,
            TrayAction::StartAnimation(Animation::Progress),
        ],
        IconCommand::SetRainFrame(frame) | IconCommand::SetGlitchFrame(frame)
        | IconCommand::SetInstallFrame(frame) => seq![TrayAction::Show(frame)],
    }
}

/// What a click on the item that installs, starts and stops leads to.
pub open spec fn start_click(t: Tray<Seq<char>>, cfg_exists: bool, running: bool) -> Seq<
    ActionView,
> {
    if !t.installed {
        seq![TrayAction::Send(ChildCommand::Install)]
    } else if !cfg_exists {
        seq![TrayAction::Message { title: INFO_TITLE@, text: NO_CONFIG_MESSAGE@ }]
    } else if !running {
        seq![
            TrayAction::StartText(stop_label(t.file_stem)),
            TrayAction::Send(ChildCommand::Start),
        ]
    } else {
        seq![TrayAction::Send(ChildCommand::Stop)]
    }
}

/// The child is stopped and the tray application ends.
pub open spec fn stop_and_exit() -> Seq<ActionView> {
    seq![TrayAction::Send(ChildCommand::Stop), TrayAction::Sleep(500), TrayAction::Exit]
}

/// The next state of the tray, and what is to be done.
pub open spec fn tray_step(t: Tray<Seq<char>>, event: TrayEvent<Seq<char>>) -> (
    Tray<Seq<char>>,
    Seq<ActionView>,
) {
    match event {
        TrayEvent::Running(running) => (
            t,
            seq![
                TrayAction::StartText(
                    if running {
                        stop_label(t.file_stem)
                    } else {
                        start_label(t.file_stem)
                    },
                ),
            ],
        ),
        TrayEvent::Status(status) => (
            Tray { installed: t.installed || status is Installed, ..t },
            status_actions(status),
        ),
        TrayEvent::Icon(command) => (t, icon_actions(command)),
        TrayEvent::StartClicked { cfg_exists, running } => (
            t,
            start_click(t, cfg_exists, running),
        ),
        TrayEvent::AutostartClicked { enabled } => (t, seq![TrayAction::SetAutostart(!enabled)]),
        TrayEvent::AutostartChanged { enable, outcome } => (
            t,
            match outcome {
                Ok(_) => seq![TrayAction::AutostartText(autostart_label(enable))],
                Err(message) => seq![TrayAction::Message { title: ERROR_TITLE@, text: message }],
            },
        ),
        TrayEvent::ConfigClicked => (
            t,
            seq![TrayAction::Spawn(edit_file(DEFAULT_CONFIG_NAME@))],
        ),
        TrayEvent::ReloadClicked => (
            t,
            seq![
                TrayAction::Send(ChildCommand::Stop),
                TrayAction::Sleep(2000),
                TrayAction::Respawn,
                TrayAction::Exit,
            ],
        ),
        TrayEvent::JsonClicked { cfg_exists } => (
            t,
            if cfg_exists {
                seq![TrayAction::Spawn(edit_file(t.cfg_path))]
            } else {
                seq![TrayAction::PickFile]
            },
        ),
        TrayEvent::JsonPicked(path) => (
            t,
            match path {
                Some(path) => seq![TrayAction::SaveCfgPath(path)],
                None => seq![],
            },
        ),
        TrayEvent::JsonSaved { path, outcome } => match outcome {
            Ok(_) => (
                Tray { cfg_path: path, ..t },
                seq![TrayAction::JsonText(json_label(t.file_stem))] + (if t.installed {
                    seq![TrayAction::StartEnabled(true)]
                } else {
                    seq![]
                }) + seq![TrayAction::Send(ChildCommand::UpdateConfigPath(path))],
            ),
            Err(message) => (
                t,
                seq![TrayAction::Message { title: ERROR_TITLE@, text: message }],
            ),
        },
        TrayEvent::QuitClicked => (t, stop_and_exit()),
        TrayEvent::Dialog(command) => (
            t,
            match command {
                DialogCommand::Restart => seq![TrayAction::Send(ChildCommand::Start)],
                DialogCommand::Exit => stop_and_exit(),
                DialogCommand::RetryAutoStart => seq![TrayAction::AskRetry],
            },
        ),
        TrayEvent::RetryAnswered(answer) => (
            t,
            if answer == ANSWER_YES {
                seq![TrayAction::Send(ChildCommand::AutoStart)]
            } else {
                seq![]
            },
        ),
        TrayEvent::IconClicked { left } => (
            t,
            if left {
                seq![TrayAction::ShowMenu]
            } else {
                seq![]
            },
        ),
    }
}

/// The picture that an animation shows; it shows its own and the original in turn.
pub open spec fn animation_command(animation: Animation, original: bool) -> IconCommand {
    match animation {
        Animation::Rain => IconCommand::SetRainFrame(
            if original {
                Frame::Original
            } else {
                Frame::Green
            },
        ),
        Animation::Glitch => IconCommand::SetGlitchFrame(
            if original {
                Frame::Original
            } else {
                Frame::Green
            },
        ),
        Animation::Progress => IconCommand::SetInstallFrame(
            if original {
                Frame::Original
            } else {
                Frame::Blue
            },
        ),
    }
}

/// The text of the item that starts the application.
fn start_text(name: &str) -> (r: String)
    ensures
        r@ == start_label(name@),
{
    "▶ Start [".to_string().concat(name).concat("]")
}

/// The text of the same item while the application runs.
fn stop_text(name: &str) -> (r: String)
    ensures
        r@ == stop_label(name@),
{
    "◼ Stop [".to_string().concat(name).concat("]")
}

/// The text of the same item while the application is not installed.
fn install_text(name: &str) -> (r: String)
    ensures
        r@ == install_label(name@),
{
    "⤵ Install [".to_string().concat(name).concat("]")
}

/// The text of the item that opens the configuration.
fn json_text(name: &str) -> (r: String)
    ensures
        r@ == json_label(name@),
{
    "Open json [".to_string().concat(name).concat("]")
}

/// The text of the item that switches the automatic start.
fn autostart_text(enabled: bool) -> (r: String)
    ensures
        r@ == autostart_label(enabled),
{
    if enabled {
        "Auto-start: [ON]-OFF".to_string()
    } else {
        "Auto-start: ON-[OFF]".to_string()
    }
}

/// The next picture of an animation, which is its own one first. `original` tells which of
/// the two is next, and is turned over.
pub fn next_frame(animation: Animation, original: &mut bool) -> (r: IconCommand)
    ensures
        r == animation_command(animation, *old(original)),
        *final(original) == !*old(original),
{
    let shows_original: bool = *original;
    *original = !shows_original;
    let own = match animation {
        Animation::Progress => Frame::Blue,
        _ => Frame::Green,
    };
    let frame = if shows_original {
        Frame::Original
    } else {
        own
    };
    match animation {
        Animation::Rain => IconCommand::SetRainFrame(frame),
        Animation::Glitch => IconCommand::SetGlitchFrame(frame),
        Animation::Progress => IconCommand::SetInstallFrame(frame),
    }
}

/// What the answer to the question whether to restart the child leads to.
pub open spec fn restart_choice(answer: i32) -> DialogCommand {
    if answer == ANSWER_YES {
        DialogCommand::Restart
    } else {
        DialogCommand::Exit
    }
}

/// Decides on the child that ended by itself, given the answer to the question whether to
/// restart it.
pub fn show_restart_dialog(answer: i32) -> (r: DialogCommand)
    ensures
        r == restart_choice(answer),
{
    if answer == ANSWER_YES {
        DialogCommand::Restart
    } else {
        DialogCommand::Exit
    }
}

/// What is to be done when the tray application ends.
pub fn shutdown() -> (r: Vec<TrayAction>)
    ensures
        action_views(r@) == seq![
            ActionView::StopAnimation,
            TrayAction::Send(ChildCommand::Stop),
            TrayAction::Sleep(500),
        ],
{
    let r = vec![
        TrayAction::StopAnimation,
        TrayAction::Send(ChildCommand::Stop),
        TrayAction::Sleep(500),
    ];
    assert(action_views(r@) =~= seq![
        ActionView::StopAnimation,
        TrayAction::Send(ChildCommand::Stop),
        TrayAction::Sleep(500),
    ]);
    r
}

/// The actions that stop the child and end the tray application.
fn leave() -> (r: Vec<TrayAction>)
    ensures
        action_views(r@) == stop_and_exit(),
{
    let r = vec![
        TrayAction::Send(ChildCommand::Stop),
        TrayAction::Sleep(500),
        TrayAction::Exit,
    ];
    assert(action_views(r@) =~= stop_and_exit());
    r
}

impl Tray {
    /// The tray at first, what its menu shows, and what is to be done.
    pub fn new(
        file_stem: String,
        cfg_path: String,
        installed: bool,
        cfg_exists: bool,
        autostart: bool,
    ) -> (r: (Tray, Startup))
        ensures
            r.0@ == (Tray { file_stem: file_stem@, cfg_path: cfg_path@, installed }),
            r.1@ == startup_of(file_stem@, installed, cfg_exists, autostart),
    {
        let commands = if autostart && installed && cfg_exists {
            vec![ChildCommand::AutoStart]
        } else {
            Vec::new()
        };
        let startup = Startup {
            start_text: if installed {
                start_text(file_stem.as_str())
            } else {
                install_text(file_stem.as_str())
            },
            json_text: if cfg_exists {
                json_text(file_stem.as_str())
            } else {
                "Select json file".to_string()
            },
            autostart_text: autostart_text(autostart),
            autostart_enabled: installed,
            commands,
        };
        assert(startup@.commands =~= startup_of(
            file_stem@,
            installed,
            cfg_exists,
            autostart,
        ).commands);
        (Tray { file_stem, cfg_path, installed }, startup)
    }

    /// Takes in how the installation goes.
    fn status(&mut self, status: InstallStatus) -> (r: Vec<TrayAction>)
        ensures
            (final(self)@, action_views(r@)) == tray_step(
                old(self)@,
                TrayEvent::Status(status@),
            ),
    {
        let r = match status {
            InstallStatus::Installing { app_name } => vec![
                TrayAction::StartText(
                    "Installing [".to_string().concat(app_name.as_str()).concat("]..."),
                ),
                TrayAction::StartEnabled(false),
                TrayAction::Icon(IconCommand::InstallProgress),
            ],
            InstallStatus::Installed { path: _, app_name } => {
                self.installed = true;
                vec![
                    TrayAction::StopAnimation,
                    TrayAction::Icon(IconCommand::Restore),
                    TrayAction::StartText(start_text(app_name.as_str())),
                    TrayAction::StartEnabled(true),
                    TrayAction::JsonEnabled(true),
                    TrayAction::AutostartEnabled(true),
                ]
            },
            InstallStatus::Failed { app_name, error: _ } => vec![
                TrayAction::StopAnimation,
                TrayAction::Icon(IconCommand::Restore),
                TrayAction::StartText(install_text(app_name.as_str())),
                TrayAction::StartEnabled(true),
            ],
        };
        assert(action_views(r@) =~= status_actions(status@));
        r
    }

    /// Takes in what the icon is to do.
    fn icon(command: IconCommand) -> (r: Vec<TrayAction>)
        ensures
            action_views(r@) == icon_actions(command),
    {
        let r = match command {
            IconCommand::Restore | IconCommand::StopGlitch => vec![
                TrayAction::StopAnimation,
                TrayAction::Show(Frame::Original),
            ],
            IconCommand::StopRain => vec![
                TrayAction::StopAnimation,
                TrayAction::Show(Frame::Green),
            ],
            IconCommand::StartRain => vec![
                TrayAction::StopAnimation,
                TrayAction::StartAnimation(Animation::Rain),
            ],
            IconCommand::Glitch => vec![
                TrayAction::StopAnimation,
                TrayAction::StartAnimation(Animation::Glitch),
            ],
            IconCommand::InstallProgress => vec![
                TrayAction::StopAnimation,
                TrayAction::StartAnimation(Animation::Progress),
            ],
            IconCommand::SetRainFrame(frame) | IconCommand::SetGlitchFrame(frame)
            | IconCommand::SetInstallFrame(frame) => vec![TrayAction::Show(frame)],
        };
        assert(action_views(r@) =~= icon_actions(command));
        r
    }

    /// Takes in a click on the item that installs, starts and stops.
    fn start_clicked(&self, cfg_exists: bool, running: bool) -> (r: Vec<TrayAction>)
        ensures
            action_views(r@) == start_click(self@, cfg_exists, running),
    {
        let r = if !self.installed {
            vec![TrayAction::Send(ChildCommand::Install)]
        } else if !cfg_exists {
            vec![
                TrayAction::Message {
                    title: INFO_TITLE.to_string(),
                    text: NO_CONFIG_MESSAGE.to_string(),
                },
            ]
        } else if !running {
            vec![
                TrayAction::StartText(stop_text(self.file_stem.as_str())),
                TrayAction::Send(ChildCommand::Start),
            ]
        } else {
            vec![TrayAction::Send(ChildCommand::Stop)]
        };
        assert(action_views(r@) =~= start_click(self@, cfg_exists, running));
        r
    }

    /// Takes in that the path of a configuration was to be saved.
    fn json_saved(&mut self, path: String, outcome: Result<(), String>) -> (r: Vec<TrayAction>)
        ensures
            (final(self)@, action_views(r@)) == tray_step(
                old(self)@,
                TrayEvent::JsonSaved { path: path@, outcome: answer_view(outcome) },
            ),
    {
        let ghost event = TrayEvent::JsonSaved { path: path@, outcome: answer_view(outcome) };
        let r = match outcome {
            Ok(_) => {
                let mut actions = vec![TrayAction::JsonText(json_text(self.file_stem.as_str()))];
                if self.installed {
                    actions.push(TrayAction::StartEnabled(true));
                }
                self.cfg_path = path.clone();
                actions.push(TrayAction::Send(ChildCommand::UpdateConfigPath(path)));
                actions
            },
            Err(message) => vec![
                TrayAction::Message { title: ERROR_TITLE.to_string(), text: message },
            ],
        };
        assert(action_views(r@) =~= tray_step(old(self)@, event).1);
        r
    }

    /// Takes in what happened, and decides what is to be done.
    pub fn step(&mut self, event: TrayEvent) -> (r: Vec<TrayAction>)
        ensures
            (final(self)@, action_views(r@)) == tray_step(old(self)@, event@),
    {
        let r = match event {
            TrayEvent::Running(running) => vec![
                TrayAction::StartText(
                    if running {
                        stop_text(self.file_stem.as_str())
                    } else {
                        start_text(self.file_stem.as_str())
                    },
                ),
            ],
            TrayEvent::Status(status) => self.status(status),
            TrayEvent::Icon(command) => Self::icon(command),
            TrayEvent::StartClicked { cfg_exists, running } => self.start_clicked(
                cfg_exists,
                running,
            ),
            TrayEvent::AutostartClicked { enabled } => vec![TrayAction::SetAutostart(!enabled)],
            TrayEvent::AutostartChanged { enable, outcome } => match outcome {
                Ok(_) => vec![TrayAction::AutostartText(autostart_text(enable))],
                Err(message) => vec![
                    TrayAction::Message { title: ERROR_TITLE.to_string(), text: message },
                ],
            },
            TrayEvent::ConfigClicked => vec![TrayAction::Spawn(edit_line(DEFAULT_CONFIG_NAME))],
            TrayEvent::ReloadClicked => vec![
                TrayAction::Send(ChildCommand::Stop),
                TrayAction::Sleep(2000),
                TrayAction::Respawn,
                TrayAction::Exit,
            ],
            TrayEvent::JsonClicked { cfg_exists } => if cfg_exists {
                vec![TrayAction::Spawn(edit_line(self.cfg_path.as_str()))]
            } else {
                vec![TrayAction::PickFile]
            },
            TrayEvent::JsonPicked(path) => match path {
                Some(path) => vec![TrayAction::SaveCfgPath(path)],
                None => Vec::new(),
            },
            TrayEvent::JsonSaved { path, outcome } => self.json_saved(path, outcome),
            TrayEvent::QuitClicked => leave(),
            TrayEvent::Dialog(command) => match command {
                DialogCommand::Restart => vec![TrayAction::Send(ChildCommand::Start)],
                DialogCommand::Exit => leave(),
                DialogCommand::RetryAutoStart => vec![TrayAction::AskRetry],
            },
            TrayEvent::RetryAnswered(answer) => if answer == ANSWER_YES {
                vec![TrayAction::Send(ChildCommand::AutoStart)]
            } else {
                Vec::new()
            },
            TrayEvent::IconClicked { left } => if left {
                vec![TrayAction::ShowMenu]
            } else {
                Vec::new()
            },
        };
        assert(action_views(r@) =~= tray_step(old(self)@, event@).1);
        r
    }
}

/// An animation begins only after the one before was ended.
pub proof fn law_one_animation_at_a_time(t: Tray<Seq<char>>, event: TrayEvent<Seq<char>>, i: int)
    requires
        0 <= i < tray_step(t, event).1.len(),
        tray_step(t, event).1[i] is StartAnimation,
    ensures
        i > 0,
        tray_step(t, event).1[i - 1] is StopAnimation,
{
}

/// The tray application ends only after the manager was told to stop the child.
pub proof fn law_child_is_stopped_before_the_end(
    t: Tray<Seq<char>>,
    event: TrayEvent<Seq<char>>,
)
    requires
        tray_step(t, event).1.contains(ActionView::Exit),
    ensures
        tray_step(t, event).1[0] == ActionView::Send(ChildCommand::Stop),
{
}

/// The manager is told of every change of the configuration that the tray shows.
pub proof fn law_manager_learns_the_configuration(
    t: Tray<Seq<char>>,
    event: TrayEvent<Seq<char>>,
)
    requires
        tray_step(t, event).0.cfg_path != t.cfg_path,
    ensures
        tray_step(t, event).1.contains(
            ActionView::Send(
                ChildCommand::UpdateConfigPath(tray_step(t, event).0.cfg_path),
            ),
        ),
{
    let actions = tray_step(t, event).1;
    assert(actions[actions.len() - 1] == ActionView::Send(
        ChildCommand::UpdateConfigPath(tray_step(t, event).0.cfg_path),
    ));
}

/// An application that is installed stays so, and its name stays the same.
pub proof fn law_installed_stays_installed(t: Tray<Seq<char>>, event: TrayEvent<Seq<char>>)
    ensures
        t.installed ==> tray_step(t, event).0.installed,
        tray_step(t, event).0.file_stem == t.file_stem,
{
}

/// A click leads to the child's start only if the application is installed, its
/// configuration exists, and the child does not run.
pub proof fn law_click_starts_only_what_is_there(
    t: Tray<Seq<char>>,
    cfg_exists: bool,
    running: bool,
)
    ensures
        start_click(t, cfg_exists, running).contains(ActionView::Send(ChildCommand::Start)) == (
        t.installed && cfg_exists && !running),
{
    if t.installed && cfg_exists && !running {
        assert(start_click(t, cfg_exists, running)[1] == ActionView::Send(ChildCommand::Start));
    }
}

/// A click on the item for the automatic start asks for the opposite of what is so, and for
/// nothing else. When that succeeds, the item shows the new state; when it fails, the user is
/// told why and the item stays. So two clicks that succeed lead back.
pub proof fn law_click_turns_the_automatic_start_over(
    t: Tray<Seq<char>>,
    enabled: bool,
    wanted: bool,
    message: Seq<char>,
)
    ensures
        tray_step(t, TrayEvent::AutostartClicked { enabled }).0 == t,
        tray_step(t, TrayEvent::AutostartClicked { enabled }).1.len() == 1,
        tray_step(t, TrayEvent::AutostartClicked { enabled }).1[0] is SetAutostart,
        tray_step(t, TrayEvent::AutostartClicked { enabled }).1[0]->SetAutostart_0 != enabled,
        tray_step(
            t,
            TrayEvent::AutostartClicked {
                enabled: tray_step(
                    t,
                    TrayEvent::AutostartClicked { enabled },
                ).1[0]->SetAutostart_0,
            },
        ).1[0]->SetAutostart_0 == enabled,
        tray_step(t, TrayEvent::AutostartChanged { enable: wanted, outcome: Ok(()) }) == (
            t,
            seq![
                ActionView::AutostartText(
                    if wanted {
                        "Auto-start: [ON]-OFF"@
                    } else {
                        "Auto-start: ON-[OFF]"@
                    },
                ),
            ],
        ),
        tray_step(t, TrayEvent::AutostartChanged { enable: wanted, outcome: Err(message) }) == (
            t,
            seq![ActionView::Message { title: ERROR_TITLE@, text: message }],
        ),
{
}

/// The text names the application in brackets.
pub open spec fn shows_name(text: Seq<char>, name: Seq<char>) -> bool {
    occurs_in("["@ + name + "]"@, text)
}

/// A text that is put together around a name in brackets shows the name.
proof fn lemma_shows_name(before: Seq<char>, name: Seq<char>, after: Seq<char>)
    requires
        before.len() > 0 && before.last() == '[',
        after.len() > 0 && after[0] == ']',
    ensures
        shows_name(before + name + after, name),
{
    reveal_strlit("[");
    reveal_strlit("]");
    let part = "["@ + name + "]"@;
    let text = before + name + after;
    let start = before.len() - 1;
    assert(text.subrange(start, start + part.len()) =~= part);
}

/// The texts of the menu show the application's name, and those of the item that installs,
/// starts and stops tell the four cases apart.
pub proof fn law_menu_shows_the_name(name: Seq<char>)
    ensures
        shows_name(start_label(name), name),
        shows_name(stop_label(name), name),
        shows_name(install_label(name), name),
        shows_name(installing_label(name), name),
        shows_name(json_label(name), name),
        start_label(name) != stop_label(name) && start_label(name) != install_label(name)
            && stop_label(name) != install_label(name),
        installing_label(name)[0] == 'I' && json_label(name)[0] == 'O',
        start_label(name)[0] == '▶' && stop_label(name)[0] == '◼' && install_label(name)[0] == '⤵',
{
    reveal_strlit("]");
    reveal_strlit("]...");
    reveal_strlit("▶ Start [");
    reveal_strlit("◼ Stop [");
    reveal_strlit("⤵ Install [");
    reveal_strlit("Installing [");
    reveal_strlit("Open json [");
    lemma_shows_name("▶ Start ["@, name, "]"@);
    lemma_shows_name("◼ Stop ["@, name, "]"@);
    lemma_shows_name("⤵ Install ["@, name, "]"@);
    lemma_shows_name("Installing ["@, name, "]..."@);
    lemma_shows_name("Open json ["@, name, "]"@);
    assert(start_label(name)[0] == "▶ Start ["@[0]);
    assert(stop_label(name)[0] == "◼ Stop ["@[0]);
    assert(install_label(name)[0] == "⤵ Install ["@[0]);
}

/// The item that installs, starts and stops offers to stop the child exactly when it is shown
/// as running.
pub proof fn law_item_follows_the_child(t: Tray<Seq<char>>, running: bool)
    ensures
        tray_step(t, TrayEvent::Running(running)) == (
            t,
            seq![
                ActionView::StartText(
                    if running {
                        stop_label(t.file_stem)
                    } else {
                        start_label(t.file_stem)
                    },
                ),
            ],
        ),
{
}

/// A click on that item gives the manager exactly one command, or none: to install if the
/// application is not installed; else none, but a message, if there is no configuration; else
/// to stop the child if it runs, and to start it if not.
pub proof fn law_click_gives_the_right_command(
    t: Tray<Seq<char>>,
    cfg_exists: bool,
    running: bool,
    i: int,
)
    ensures
        ({
            let (next, actions) = tray_step(t, TrayEvent::StartClicked { cfg_exists, running });
            let right = if !t.installed {
                ChildCommand::<Seq<char>>::Install
            } else if running {
                ChildCommand::Stop
            } else {
                ChildCommand::Start
            };
            &&& next == t
            &&& 0 <= i < actions.len() && actions[i] is Send ==> actions[i]->Send_0 == right
            &&& t.installed && !cfg_exists ==> actions == seq![
                ActionView::Message { title: INFO_TITLE@, text: NO_CONFIG_MESSAGE@ },
            ]
            &&& !t.installed || cfg_exists ==> actions.len() > 0 && actions.last()
                == ActionView::Send(right) && !actions.drop_last().contains(
                ActionView::Send(right),
            )
            &&& t.installed && cfg_exists && !running ==> actions[0] == ActionView::StartText(
                stop_label(t.file_stem),
            )
        }),
{
}

/// While the application is being installed the item cannot be clicked; after that it can, and
/// the icon is as it was. The application counts as installed exactly from a success on, and
/// then the other two items can be clicked too.
pub proof fn law_installation_is_shown(
    t: Tray<Seq<char>>,
    path: Seq<char>,
    name: Seq<char>,
    error: Seq<char>,
)
    ensures
        ({
            let (next, actions) = tray_step(
                t,
                TrayEvent::Status(InstallStatus::Installing { app_name: name }),
            );
            &&& next == t
            &&& actions.contains(ActionView::StartText(installing_label(name)))
            &&& actions.contains(ActionView::StartEnabled(false))
            &&& actions.contains(ActionView::Icon(IconCommand::InstallProgress))
            &&& actions.len() == 3
        }),
        ({
            let (next, actions) = tray_step(
                t,
                TrayEvent::Status(InstallStatus::Installed { path, app_name: name }),
            );
            &&& next == (Tray { installed: true, ..t })
            &&& actions[0] is StopAnimation
            &&& actions.contains(ActionView::Icon(IconCommand::Restore))
            &&& actions.contains(ActionView::StartText(start_label(name)))
            &&& actions.contains(ActionView::StartEnabled(true))
            &&& actions.contains(ActionView::JsonEnabled(true))
            &&& actions.contains(ActionView::AutostartEnabled(true))
            &&& actions.len() == 6
        }),
        ({
            let (next, actions) = tray_step(
                t,
                TrayEvent::Status(InstallStatus::Failed { app_name: name, error }),
            );
            &&& next == t
            &&& actions[0] is StopAnimation
            &&& actions.contains(ActionView::Icon(IconCommand::Restore))
            &&& actions.contains(ActionView::StartText(install_label(name)))
            &&& actions.contains(ActionView::StartEnabled(true))
            &&& actions.len() == 4
        }),
{
    let a = status_actions(InstallStatus::Installing { app_name: name });
    let b = status_actions(InstallStatus::Installed { path, app_name: name });
    let c = status_actions(InstallStatus::Failed { app_name: name, error });
    assert(a[0] == ActionView::StartText(installing_label(name)));
    assert(a[1] == ActionView::StartEnabled(false));
    assert(a[2] == ActionView::Icon(IconCommand::InstallProgress));
    assert(b[1] == ActionView::Icon(IconCommand::Restore));
    assert(b[2] == ActionView::StartText(start_label(name)));
    assert(b[3] == ActionView::StartEnabled(true));
    assert(b[4] == ActionView::JsonEnabled(true));
    assert(b[5] == ActionView::AutostartEnabled(true));
    assert(c[1] == ActionView::Icon(IconCommand::Restore));
    assert(c[2] == ActionView::StartText(install_label(name)));
    assert(c[3] == ActionView::StartEnabled(true));
}

/// A click on the item for the configuration opens the one that is set if it exists, and else
/// lets the user pick one. What is picked is saved, as it is; what is saved is the one that is
/// set from then on, which the manager learns; what could not be saved changes nothing, and
/// the user is told why.
pub proof fn law_picked_configuration_is_taken(
    t: Tray<Seq<char>>,
    path: Seq<char>,
    message: Seq<char>,
)
    ensures
        tray_step(t, TrayEvent::JsonClicked { cfg_exists: true }) == (
            t,
            seq![ActionView::Spawn(edit_file(t.cfg_path))],
        ),
        tray_step(t, TrayEvent::JsonClicked { cfg_exists: false }) == (
            t,
            seq![ActionView::PickFile],
        ),
        tray_step(t, TrayEvent::JsonPicked(Some(path))) == (
            t,
            seq![ActionView::SaveCfgPath(path)],
        ),
        tray_step(t, TrayEvent::JsonPicked(None)) == (t, Seq::<ActionView>::empty()),
        tray_step(t, TrayEvent::JsonSaved { path, outcome: Err(message) }) == (
            t,
            seq![ActionView::Message { title: ERROR_TITLE@, text: message }],
        ),
        ({
            let (next, actions) = tray_step(t, TrayEvent::JsonSaved { path, outcome: Ok(()) });
            &&& next == (Tray { cfg_path: path, ..t })
            &&& actions.last() == ActionView::Send(ChildCommand::UpdateConfigPath(path))
            &&& actions[0] == ActionView::JsonText(json_label(t.file_stem))
            &&& actions.contains(ActionView::StartEnabled(true)) == t.installed
        }),
        tray_step(t, TrayEvent::ConfigClicked) == (
            t,
            seq![ActionView::Spawn(edit_file("rust-box.cfg"@))],
        ),
{
    let actions = tray_step(t, TrayEvent::JsonSaved { path, outcome: Ok(()) }).1;
    if t.installed {
        assert(actions[1] == ActionView::StartEnabled(true));
    }
}

/// The tray application ends when the user quits, reloads, or does not want a child restarted
/// that ended by itself, and never else. It is started anew only when the user reloads, and
/// then before it ends.
pub proof fn law_tray_application_ends_on_order(t: Tray<Seq<char>>, event: TrayEvent<Seq<char>>)
    ensures
        tray_step(t, event).1.contains(ActionView::Exit) == (event is QuitClicked
            || event is ReloadClicked || event == TrayEvent::<Seq<char>>::Dialog(
            DialogCommand::Exit,
        )),
        tray_step(t, event).1.contains(ActionView::Respawn) == event is ReloadClicked,
        tray_step(t, event).1.contains(ActionView::Exit) ==> tray_step(t, event).1.last() is Exit
            && tray_step(t, event).1[1] is Sleep,
{
    let actions = tray_step(t, event).1;
    if event is ReloadClicked {
        assert(actions[2] == ActionView::Respawn);
        assert(actions[3] == ActionView::Exit);
    }
    if event is QuitClicked || event == TrayEvent::<Seq<char>>::Dialog(DialogCommand::Exit) {
        assert(actions[2] == ActionView::Exit);
    }
}

/// The answer yes starts the child again, or has the automatic start tried again; any other
/// answer does not.
pub proof fn law_answers_decide(t: Tray<Seq<char>>, answer: i32)
    ensures
        tray_step(t, TrayEvent::Dialog(DialogCommand::Restart)) == (
            t,
            seq![ActionView::Send(ChildCommand::Start)],
        ),
        tray_step(t, TrayEvent::Dialog(DialogCommand::RetryAutoStart)) == (
            t,
            seq![ActionView::AskRetry],
        ),
        answer == 6 ==> tray_step(t, TrayEvent::RetryAnswered(answer)) == (
            t,
            seq![ActionView::Send(ChildCommand::AutoStart)],
        ),
        answer != 6 ==> tray_step(t, TrayEvent::RetryAnswered(answer)) == (
            t,
            Seq::<ActionView>::empty(),
        ),
        restart_choice(answer) is Restart == (answer == 6),
        restart_choice(answer) is Exit == (answer != 6),
{
}

/// The menu is shown on a click with the left button, and on no other.
pub proof fn law_left_click_shows_the_menu(t: Tray<Seq<char>>, left: bool)
    ensures
        tray_step(t, TrayEvent::IconClicked { left }).0 == t,
        tray_step(t, TrayEvent::IconClicked { left }).1.contains(ActionView::ShowMenu) == left,
        tray_step(t, TrayEvent::IconClicked { left }).1.len() == if left {
            1int
        } else {
            0
        },
{
    if left {
        assert(tray_step(t, TrayEvent::IconClicked { left }).1[0] == ActionView::ShowMenu);
    }
}

/// When an animation ends the icon shows whether the child runs: green when a start is over,
/// as it was when a stop is over or at rest. Before anything else the animation is ended that
/// runs. Each animation begins on its own command, and a picture of one is shown as it comes.
pub proof fn law_icon_shows_whether_the_child_runs(t: Tray<Seq<char>>, frame: Frame)
    ensures
        tray_step(t, TrayEvent::Icon(IconCommand::StopRain)) == (
            t,
            seq![ActionView::StopAnimation, TrayAction::Show(Frame::Green)],
        ),
        tray_step(t, TrayEvent::Icon(IconCommand::StopGlitch)) == (
            t,
            seq![ActionView::StopAnimation, TrayAction::Show(Frame::Original)],
        ),
        tray_step(t, TrayEvent::Icon(IconCommand::Restore)) == tray_step(
            t,
            TrayEvent::Icon(IconCommand::StopGlitch),
        ),
        tray_step(t, TrayEvent::Icon(IconCommand::StartRain)) == (
            t,
            seq![ActionView::StopAnimation, TrayAction::StartAnimation(Animation::Rain)],
        ),
        tray_step(t, TrayEvent::Icon(IconCommand::Glitch)) == (
            t,
            seq![ActionView::StopAnimation, TrayAction::StartAnimation(Animation::Glitch)],
        ),
        tray_step(t, TrayEvent::Icon(IconCommand::InstallProgress)) == (
            t,
            seq![ActionView::StopAnimation, TrayAction::StartAnimation(Animation::Progress)],
        ),
        tray_step(t, TrayEvent::Icon(IconCommand::SetRainFrame(frame))) == (
            t,
            seq![ActionView::Show(frame)],
        ),
        tray_step(t, TrayEvent::Icon(IconCommand::SetGlitchFrame(frame))) == (
            t,
            seq![ActionView::Show(frame)],
        ),
        tray_step(t, TrayEvent::Icon(IconCommand::SetInstallFrame(frame))) == (
            t,
            seq![ActionView::Show(frame)],
        ),
{
}

/// An animation shows the original picture every other time, and in between a blue one during
/// an installation and a green one else.
pub proof fn law_animations_alternate(original: bool)
    ensures
        animation_command(Animation::Rain, original) == IconCommand::SetRainFrame(
            if original {
                Frame::Original
            } else {
                Frame::Green
            },
        ),
        animation_command(Animation::Glitch, original) == IconCommand::SetGlitchFrame(
            if original {
                Frame::Original
            } else {
                Frame::Green
            },
        ),
        animation_command(Animation::Progress, original) == IconCommand::SetInstallFrame(
            if original {
                Frame::Original
            } else {
                Frame::Blue
            },
        ),
{
}

/// At first the menu offers to start the application if it is installed and to install it if
/// not, and to open the configuration if it exists. The automatic start can be switched only
/// for an application that is installed. The child is started at once exactly if the automatic
/// start is on, the application is installed, and the configuration exists.
pub proof fn law_menu_at_first(
    name: Seq<char>,
    installed: bool,
    cfg_exists: bool,
    autostart: bool,
)
    ensures
        ({
            let startup = startup_of(name, installed, cfg_exists, autostart);
            &&& startup.start_text == if installed {
                start_label(name)
            } else {
                install_label(name)
            }
            &&& startup.json_text == if cfg_exists {
                json_label(name)
            } else {
                "Select json file"@
            }
            &&& startup.autostart_text == if autostart {
                "Auto-start: [ON]-OFF"@
            } else {
                "Auto-start: ON-[OFF]"@
            }
            &&& startup.autostart_enabled == installed
            &&& startup.commands == if autostart && installed && cfg_exists {
                seq![ChildCommand::<Seq<char>>::AutoStart]
            } else {
                seq![]
            }
        }),
{
}

} // verus!
