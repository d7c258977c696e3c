use rust_box::command::edit_line;
use rust_box::manager::{ChildCommand, DialogCommand, Frame, IconCommand, InstallStatus};
use rust_box::tray::{
    next_frame, show_restart_dialog, shutdown, Animation, Startup, Tray, TrayAction, TrayEvent,
};

fn text(s: &str) -> String {
    s.to_string()
}

fn tray(installed: bool) -> Tray {
    Tray::new(text("box"), text("c.json"), installed, true, false).0
}

fn message(title: &str, body: &str) -> Vec<TrayAction> {
    vec![TrayAction::Message { title: text(title), text: text(body) }]
}

#[test]
fn what_the_menu_shows_at_first() {
    assert_eq!(
        Tray::new(text("box"), text("c"), true, true, true).1,
        Startup {
            start_text: text("\u{25b6} Start [box]"),
            json_text: text("Open json [box]"),
            autostart_text: text("Auto-start: [ON]-OFF"),
            autostart_enabled: true,
            commands: vec![ChildCommand::AutoStart],
        }
    );
    assert_eq!(
        Tray::new(text("box"), text("c"), false, false, true).1,
        Startup {
            start_text: text("\u{2935} Install [box]"),
            json_text: text("Select json file"),
            autostart_text: text("Auto-start: [ON]-OFF"),
            autostart_enabled: false,
            commands: vec![],
        }
    );
    let third = Tray::new(text("box"), text("c"), true, false, false).1;
    assert_eq!(third.start_text, "\u{25b6} Start [box]");
    assert_eq!(third.autostart_text, "Auto-start: ON-[OFF]");
    assert!(third.commands.is_empty());
}

#[test]
fn the_start_item_follows_the_child() {
    let mut t = tray(true);
    assert_eq!(
        t.step(TrayEvent::Running(true)),
        vec![TrayAction::StartText(text("\u{25fc} Stop [box]"))]
    );
    assert_eq!(
        t.step(TrayEvent::Running(false)),
        vec![TrayAction::StartText(text("\u{25b6} Start [box]"))]
    );
}

#[test]
fn a_click_on_the_start_item() {
    let click = |installed: bool, cfg_exists: bool, running: bool| {
        tray(installed).step(TrayEvent::StartClicked { cfg_exists, running })
    };
    assert_eq!(click(false, true, false), vec![TrayAction::Send(ChildCommand::Install)]);
    assert_eq!(
        click(true, true, false),
        vec![
            TrayAction::StartText(text("\u{25fc} Stop [box]")),
            TrayAction::Send(ChildCommand::Start),
        ]
    );
    assert_eq!(click(true, true, true), vec![TrayAction::Send(ChildCommand::Stop)]);
    assert_eq!(
        click(true, false, true),
        message(
            "Rust Box - Info",
            "Application installed, but config file missing. Please select config."
        )
    );
}

#[test]
fn an_installation_is_shown() {
    let mut t = tray(false);
    assert_eq!(
        t.step(TrayEvent::Status(InstallStatus::Installing { app_name: text("a") })),
        vec![
            TrayAction::StartText(text("Installing [a]...")),
            TrayAction::StartEnabled(false),
            TrayAction::Icon(IconCommand::InstallProgress),
        ]
    );
    assert_eq!(
        t.step(TrayEvent::Status(InstallStatus::Failed { app_name: text("a"), error: text("e") })),
        vec![
            TrayAction::StopAnimation,
            TrayAction::Icon(IconCommand::Restore),
            TrayAction::StartText(text("\u{2935} Install [a]")),
            TrayAction::StartEnabled(true),
        ]
    );
    assert!(!t.installed);
    assert_eq!(
        t.step(TrayEvent::Status(InstallStatus::Installed { path: text("p"), app_name: text("a") })),
        vec![
            TrayAction::StopAnimation,
            TrayAction::Icon(IconCommand::Restore),
            TrayAction::StartText(text("\u{25b6} Start [a]")),
            TrayAction::StartEnabled(true),
            TrayAction::JsonEnabled(true),
            TrayAction::AutostartEnabled(true),
        ]
    );
    assert!(t.installed);
}

#[test]
fn the_icon_does_as_it_is_told() {
    let mut t = tray(true);
    let mut does = |c: IconCommand| t.step(TrayEvent::Icon(c));
    let stop = || TrayAction::StopAnimation;
    assert_eq!(does(IconCommand::Restore), vec![stop(), TrayAction::Show(Frame::Original)]);
    assert_eq!(does(IconCommand::StopGlitch), vec![stop(), TrayAction::Show(Frame::Original)]);
    assert_eq!(does(IconCommand::StopRain), vec![stop(), TrayAction::Show(Frame::Green)]);
    for (c, animation) in [
        (IconCommand::StartRain, Animation::Rain),
        (IconCommand::Glitch, Animation::Glitch),
        (IconCommand::InstallProgress, Animation::Progress),
    ] {
        assert_eq!(does(c), vec![stop(), TrayAction::StartAnimation(animation)]);
    }
    for c in [
        IconCommand::SetRainFrame(Frame::Green),
        IconCommand::SetGlitchFrame(Frame::Green),
        IconCommand::SetInstallFrame(Frame::Green),
    ] {
        assert_eq!(does(c), vec![TrayAction::Show(Frame::Green)]);
    }
}

#[test]
fn animations_alternate() {
    let mut original = false;
    let rain: Vec<IconCommand> = (0..3).map(|_| next_frame(Animation::Rain, &mut original)).collect();
    assert_eq!(
        rain,
        vec![
            IconCommand::SetRainFrame(Frame::Green),
            IconCommand::SetRainFrame(Frame::Original),
            IconCommand::SetRainFrame(Frame::Green),
        ]
    );
    assert!(original);
    assert_eq!(
        next_frame(Animation::Glitch, &mut false),
        IconCommand::SetGlitchFrame(Frame::Green)
    );
    assert_eq!(
        next_frame(Animation::Progress, &mut false),
        IconCommand::SetInstallFrame(Frame::Blue)
    );
}

#[test]
fn the_automatic_start_is_switched() {
    let mut t = tray(true);
    assert_eq!(
        t.step(TrayEvent::AutostartClicked { enabled: true }),
        vec![TrayAction::SetAutostart(false)]
    );
    assert_eq!(
        t.step(TrayEvent::AutostartChanged { enable: false, outcome: Ok(()) }),
        vec![TrayAction::AutostartText(text("Auto-start: ON-[OFF]"))]
    );
    assert_eq!(
        t.step(TrayEvent::AutostartChanged { enable: true, outcome: Err(text("e")) }),
        message("Rust Box - Error", "e")
    );
}

#[test]
fn a_configuration_is_picked() {
    let mut t = tray(true);
    assert_eq!(
        t.step(TrayEvent::JsonClicked { cfg_exists: true }),
        vec![TrayAction::Spawn(edit_line("c.json"))]
    );
    assert_eq!(t.step(TrayEvent::JsonClicked { cfg_exists: false }), vec![TrayAction::PickFile]);
    assert_eq!(t.step(TrayEvent::JsonPicked(None)), vec![]);
    assert_eq!(
        t.step(TrayEvent::JsonPicked(Some(text("d")))),
        vec![TrayAction::SaveCfgPath(text("d"))]
    );
    assert_eq!(
        t.step(TrayEvent::JsonSaved { path: text("d"), outcome: Err(text("e")) }),
        message("Rust Box - Error", "e")
    );
    assert_eq!(t.cfg_path, "c.json");
    assert_eq!(
        t.step(TrayEvent::JsonSaved { path: text("d"), outcome: Ok(()) }),
        vec![
            TrayAction::JsonText(text("Open json [box]")),
            TrayAction::StartEnabled(true),
            TrayAction::Send(ChildCommand::UpdateConfigPath(text("d"))),
        ]
    );
    assert_eq!(t.cfg_path, "d");
    assert_eq!(
        tray(false).step(TrayEvent::JsonSaved { path: text("d"), outcome: Ok(()) }).len(),
        2
    );
}

#[test]
fn the_child_is_stopped_at_the_end() {
    let leave = vec![
        TrayAction::Send(ChildCommand::Stop),
        TrayAction::Sleep(500),
        TrayAction::Exit,
    ];
    let mut t = tray(true);
    assert_eq!(t.step(TrayEvent::QuitClicked), leave);
    assert_eq!(t.step(TrayEvent::Dialog(DialogCommand::Exit)), leave);
    assert_eq!(
        t.step(TrayEvent::ReloadClicked),
        vec![
            TrayAction::Send(ChildCommand::Stop),
            TrayAction::Sleep(2000),
            TrayAction::Respawn,
            TrayAction::Exit,
        ]
    );
    assert_eq!(
        shutdown(),
        vec![
            TrayAction::StopAnimation,
            TrayAction::Send(ChildCommand::Stop),
            TrayAction::Sleep(500),
        ]
    );
}

#[test]
fn dialogs_decide() {
    assert_eq!(show_restart_dialog(6), DialogCommand::Restart);
    assert_eq!(show_restart_dialog(7), DialogCommand::Exit);
    assert_eq!(show_restart_dialog(0), DialogCommand::Exit);
    let mut t = tray(true);
    assert_eq!(
        t.step(TrayEvent::Dialog(DialogCommand::Restart)),
        vec![TrayAction::Send(ChildCommand::Start)]
    );
    assert_eq!(
        t.step(TrayEvent::Dialog(DialogCommand::RetryAutoStart)),
        vec![TrayAction::AskRetry]
    );
    assert_eq!(
        t.step(TrayEvent::RetryAnswered(6)),
        vec![TrayAction::Send(ChildCommand::AutoStart)]
    );
    assert_eq!(t.step(TrayEvent::RetryAnswered(7)), vec![]);
    assert_eq!(t.step(TrayEvent::IconClicked { left: true }), vec![TrayAction::ShowMenu]);
    assert_eq!(t.step(TrayEvent::IconClicked { left: false }), vec![]);
    assert_eq!(
        t.step(TrayEvent::ConfigClicked),
        vec![TrayAction::Spawn(edit_line("rust-box.cfg"))]
    );
}
