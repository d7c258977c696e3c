use rust_box::command::{
    kill_by_name_line, kill_by_pid_line, launch_line, powershell_bypass_line, REMOVE_TUN_SCRIPT,
};
use rust_box::manager::{
    AppTarget, Ask, ChildCommand, DialogCommand, Effect, Event, IconCommand, InstallStatus, Manager,
    Phase,
};

fn text(s: &str) -> String {
    s.to_string()
}

fn manager() -> Manager {
    Manager::new(AppTarget::new(text("apps/box.exe")), text("c.json"))
}

fn command(m: &mut Manager, c: ChildCommand) -> (Vec<Effect>, Ask) {
    m.step(Event::Command(c))
}

fn launch(m: &mut Manager, printed: Option<&str>) -> (Vec<Effect>, Ask) {
    command(m, ChildCommand::Start);
    m.step(Event::Exists(true));
    m.step(Event::Exists(true));
    m.step(Event::Ran);
    m.step(Event::Ran);
    m.step(Event::Launched(printed.map(text)))
}

fn running() -> Manager {
    let mut m = manager();
    launch(&mut m, Some("77\r\n"));
    m.step(Event::Alive(true));
    m
}

#[test]
fn an_application_has_a_name() {
    let target = AppTarget::new(text("apps/box.exe"));
    assert_eq!(target.path, "apps/box.exe");
    assert_eq!(target.file_name, "box.exe");
    assert_eq!(target.file_stem, "box");
    assert_eq!(AppTarget::new(text("sing-box")).file_stem, "sing-box");
    assert_eq!(AppTarget::named(text("/"), None).file_name, "");
}

#[test]
fn an_application_has_a_name_after_its_last_backslash() {
    let target = AppTarget::named(text("C:\\Apps\\Box.exe"), Some(text("Box.exe")));
    assert_eq!(target.path, "C:\\Apps\\Box.exe");
    assert_eq!(target.file_name, "Box.exe");
    assert_eq!(target.file_stem, "Box");
    // Whether a backslash separates the parts of a path rests on the operating system.
    let (name, stem) = if std::path::is_separator('\\') {
        ("Box.exe", "Box")
    } else {
        ("C:\\Apps\\Box.exe", "C:\\Apps\\Box")
    };
    let target = AppTarget::new(text("C:\\Apps\\Box.exe"));
    assert_eq!(target.file_name, name);
    assert_eq!(target.file_stem, stem);
}

#[test]
fn some_paths_have_no_last_part() {
    for path in ["", "/", ".", "..", "./.", "a/..", "/."] {
        assert_eq!(AppTarget::new(text(path)).file_name, "", "{}", path);
    }
    for path in ["a/b", "a/b/", "a/b//", "a/b/.", "a/b/./", "/a/b", "x/../b"] {
        assert_eq!(AppTarget::new(text(path)).file_name, "b", "{}", path);
    }
}

#[test]
fn the_child_is_started() {
    let mut m = manager();
    assert_eq!(command(&mut m, ChildCommand::Start), (vec![], Ask::Exists(text("apps/box.exe"))));
    assert_eq!(m.step(Event::Exists(true)), (vec![], Ask::Exists(text("c.json"))));
    assert_eq!(
        m.step(Event::Exists(true)),
        (
            vec![Effect::Icon(IconCommand::StartRain)],
            Ask::Run(kill_by_name_line("box.exe"))
        )
    );
    assert_eq!(m.step(Event::Ran), (vec![], Ask::Run(powershell_bypass_line(REMOVE_TUN_SCRIPT))));
    assert_eq!(m.step(Event::Ran), (vec![], Ask::Launch(launch_line("apps/box.exe", "c.json"))));
    assert_eq!(
        m.step(Event::Launched(Some(text(" 77\r\n")))),
        (vec![], Ask::Alive { pid: 77, delay_ms: 0 })
    );
    assert_eq!(
        m.step(Event::Alive(true)),
        (
            vec![
                Effect::KeepLaunched,
                Effect::SetRunning(true),
                Effect::IconAfter(5, IconCommand::StopRain),
                Effect::ShowRunning(true),
            ],
            Ask::Nothing
        )
    );
    assert_eq!(m.child, Some(77));
    assert_eq!(m.phase, Phase::Idle);
}

#[test]
fn a_missing_file_stops_the_start() {
    let mut m = manager();
    command(&mut m, ChildCommand::Start);
    assert_eq!(m.step(Event::Exists(false)), (vec![Effect::ShowRunning(false)], Ask::Nothing));
    command(&mut m, ChildCommand::AutoStart);
    command(&mut m, ChildCommand::Start);
    m.step(Event::Exists(true));
    assert_eq!(m.step(Event::Exists(false)), (vec![], Ask::Nothing));
}

#[test]
fn a_second_child_is_not_started() {
    let mut m = running();
    command(&mut m, ChildCommand::Start);
    m.step(Event::Exists(true));
    assert_eq!(m.step(Event::Exists(true)), (vec![], Ask::Nothing));
    assert_eq!(m.child, Some(77));
}

#[test]
fn a_launch_can_fail() {
    let given_up = vec![
        Effect::Icon(IconCommand::StopRain),
        Effect::ShowRunning(false),
        Effect::DropLaunched,
    ];
    let mut m = manager();
    assert_eq!(launch(&mut m, None), (vec![Effect::ShowRunning(false)], Ask::Nothing));
    assert_eq!(launch(&mut m, Some("no number")).0, given_up);
    launch(&mut m, Some("5"));
    assert_eq!(m.step(Event::Alive(false)).0, given_up);
    assert_eq!(m.child, None);
}

#[test]
fn an_automatic_start_is_tried_five_times() {
    let mut m = manager();
    assert_eq!(
        command(&mut m, ChildCommand::AutoStart),
        (vec![Effect::Enqueue(ChildCommand::Start)], Ask::Nothing)
    );
    for secs in [2u64, 4, 6, 8] {
        launch(&mut m, Some("9"));
        assert_eq!(
            m.step(Event::Alive(false)),
            (vec![Effect::StartAfter(secs), Effect::DropLaunched], Ask::Nothing)
        );
    }
    assert_eq!(
        launch(&mut m, Some("")),
        (vec![Effect::Dialog(DialogCommand::RetryAutoStart), Effect::DropLaunched], Ask::Nothing)
    );
    assert!(!m.pending);
    assert_eq!(m.attempts, 0);
}

#[test]
fn the_child_is_asked_to_end() {
    let mut m = running();
    assert_eq!(
        command(&mut m, ChildCommand::Stop),
        (vec![Effect::Icon(IconCommand::Glitch)], Ask::Run(kill_by_pid_line(77, false)))
    );
    assert_eq!(m.step(Event::Ran), (vec![], Ask::Alive { pid: 77, delay_ms: 250 }));
    assert_eq!(m.step(Event::Alive(false)), (vec![], Ask::Alive { pid: 77, delay_ms: 0 }));
    assert_eq!(
        m.step(Event::Alive(false)),
        (vec![Effect::KillChild], Ask::Run(kill_by_name_line("box.exe")))
    );
    assert_eq!(m.step(Event::Ran), (vec![], Ask::Processes { delay_ms: 100 }));
    assert_eq!(
        m.step(Event::Processes(vec![1, 2])),
        (
            vec![
                Effect::SetRunning(false),
                Effect::Icon(IconCommand::StopGlitch),
                Effect::ShowRunning(false),
            ],
            Ask::Nothing
        )
    );
    assert_eq!(m.child, None);
}

#[test]
fn the_child_is_ended_by_force() {
    let mut m = running();
    command(&mut m, ChildCommand::Stop);
    m.step(Event::Ran);
    for _ in 0..9 {
        assert_eq!(m.step(Event::Alive(true)), (vec![], Ask::Alive { pid: 77, delay_ms: 250 }));
    }
    assert_eq!(m.step(Event::Alive(true)), (vec![], Ask::Alive { pid: 77, delay_ms: 0 }));
    assert_eq!(m.step(Event::Alive(true)), (vec![], Ask::Run(kill_by_pid_line(77, true))));
    assert_eq!(m.step(Event::Ran), (vec![], Ask::Sleep { delay_ms: 1000 }));
    assert_eq!(m.step(Event::Slept).0, vec![Effect::KillChild]);
    m.step(Event::Ran);
    for _ in 0..14 {
        assert_eq!(m.step(Event::Processes(vec![77])), (vec![], Ask::Processes { delay_ms: 100 }));
    }
    assert_eq!(m.step(Event::Processes(vec![77])).0.len(), 3);
    assert_eq!(m.child, None);
}

#[test]
fn stopping_without_a_child() {
    let mut m = manager();
    assert_eq!(
        command(&mut m, ChildCommand::Stop),
        (
            vec![Effect::Icon(IconCommand::Glitch), Effect::KillChild],
            Ask::Run(kill_by_name_line("box.exe"))
        )
    );
    assert_eq!(m.step(Event::Ran).1, Ask::Nothing);
}

#[test]
fn a_child_that_ends_by_itself() {
    let mut m = running();
    assert_eq!(m.step(Event::Tick), (vec![], Ask::Processes { delay_ms: 0 }));
    assert_eq!(m.step(Event::Processes(vec![3, 77])), (vec![], Ask::Nothing));
    m.step(Event::Tick);
    assert_eq!(
        m.step(Event::Processes(vec![3])),
        (
            vec![Effect::DropChild, Effect::SetRunning(false), Effect::ShowRunning(false)],
            Ask::Sleep { delay_ms: 1000 }
        )
    );
    assert_eq!(m.step(Event::Slept), (vec![Effect::AskRestart], Ask::Nothing));
    assert!(m.dialog_shown);
    assert_eq!(m.step(Event::Tick), (vec![], Ask::Nothing));
}

#[test]
fn the_restart_is_asked_for_once() {
    let mut m = running();
    m.dialog_shown = true;
    m.step(Event::Tick);
    m.step(Event::Processes(vec![]));
    assert_eq!(m.step(Event::Slept), (vec![], Ask::Nothing));
}

#[test]
fn the_application_is_installed() {
    let mut m = manager();
    assert_eq!(
        command(&mut m, ChildCommand::Install),
        (
            vec![Effect::Status(InstallStatus::Installing { app_name: text("box") })],
            Ask::Install(text("box"))
        )
    );
    assert_eq!(
        m.step(Event::Installed(Ok(AppTarget::new(text("new/place.exe"))))),
        (
            vec![Effect::Status(InstallStatus::Installed {
                path: text("new/place.exe"),
                app_name: text("box"),
            })],
            Ask::Nothing
        )
    );
    assert_eq!(m.app.file_name, "place.exe");
    command(&mut m, ChildCommand::Install);
    assert_eq!(
        m.step(Event::Installed(Err(text("e")))).0,
        vec![Effect::Status(InstallStatus::Failed { app_name: text("place"), error: text("e") })]
    );
}

#[test]
fn the_configuration_is_changed() {
    let mut m = manager();
    assert_eq!(
        command(&mut m, ChildCommand::UpdateConfigPath(text("d.json"))),
        (vec![], Ask::Nothing)
    );
    command(&mut m, ChildCommand::Start);
    assert_eq!(m.step(Event::Exists(true)).1, Ask::Exists(text("d.json")));
}
