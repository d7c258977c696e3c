use rust_box::command::{
    autostart_outcome, edit_line, get_autostart_state, get_username, is_process_alive,
    kill_by_name_line, kill_by_pid_line, launch_line, list_process_line, listing_mentions,
    powershell_bypass_line, query_task_line, set_autostart_state, source_line, task_failure,
    Invocation, Method,
};
use rust_box::install::{
    install_app, is_available, InstallAsk, InstallEvent, InstallStage, Installer,
};

fn text(s: &str) -> String {
    s.to_string()
}

fn shown(line: &Invocation) -> String {
    format!("{} {}", line.program, line.args.join("|"))
}

#[test]
fn processes_are_ended_and_listed() {
    assert_eq!(shown(&kill_by_name_line("a.exe")), "taskkill /F|/IM|a.exe");
    assert_eq!(shown(&kill_by_pid_line(42, false)), "taskkill /PID|42");
    assert_eq!(shown(&kill_by_pid_line(42, true)), "taskkill /F|/PID|42");
    assert_eq!(shown(&list_process_line(42)), "tasklist /FI|PID eq 42|/NH");
    assert_eq!(shown(&edit_line("x.json")), "notepad x.json");
}

#[test]
fn a_listed_process_is_alive() {
    assert!(is_process_alive(Some(b"app.exe   42 Console".to_vec()), 42));
    assert!(is_process_alive(Some(b"\xff 142 ".to_vec()), 42));
    assert!(!is_process_alive(Some(b"INFO: No tasks".to_vec()), 42));
    assert!(!is_process_alive(None, 42));
    assert!(listing_mentions("x 7 y", 7));
    assert!(!listing_mentions("", 7));
}

#[test]
fn scripts_for_powershell() {
    assert_eq!(
        shown(&source_line("sing-box")),
        "powershell -NoProfile|-Command|Get-Command sing-box -ErrorAction SilentlyContinue | Select-Object -ExpandProperty Source"
    );
    assert_eq!(
        shown(&launch_line("C:\\a.exe", "c.json")),
        "powershell -NoProfile|-ExecutionPolicy|Bypass|-Command|$p = Start-Process -FilePath \"C:\\a.exe\" -ArgumentList \"run\",\"-c\",\"c.json\" -Verb RunAs -WindowStyle Hidden -PassThru; if ($p) { $p.Id }"
    );
    assert_eq!(
        shown(&powershell_bypass_line("x")),
        "powershell -NoProfile|-ExecutionPolicy|Bypass|-Command|x"
    );
}

#[test]
fn package_managers() {
    assert_eq!(shown(&Method::Choco.version_line()), "choco --version");
    assert_eq!(
        shown(&Method::Winget.install_line("a")),
        "winget install|--id|a|-e|--silent|--source|winget|--accept-source-agreements|--accept-package-agreements|--disable-interactivity"
    );
    assert_eq!(shown(&Method::Choco.install_line("a")), "choco install|a|-y|--accept-license");
    assert_eq!(shown(&Method::Scoop.install_line("a")), "scoop install|a");
}

#[test]
fn the_user_is_known_or_not() {
    assert_eq!(get_username(Some(text("me")), Some(b"you".to_vec())), "me");
    assert_eq!(get_username(None, Some(b"host\\me\r\n".to_vec())), "host\\me\r\n");
    assert_eq!(get_username(None, Some(vec![0xff])), "");
    assert_eq!(get_username(None, None), "");
}

#[test]
fn the_automatic_start_is_a_scheduled_task() {
    assert_eq!(shown(&query_task_line()), "schtasks /query|/tn|RustBox");
    assert!(get_autostart_state(Some(true)));
    assert!(!get_autostart_state(Some(false)));
    assert!(!get_autostart_state(None));
    assert_eq!(
        shown(&set_autostart_state(true, Ok(text("C:\\r b.exe")), "me").unwrap()),
        "schtasks /create|/tn|RustBox|/tr|\"C:\\r b.exe\"|/sc|onlogon|/ru|me|/rl|HIGHEST|/it|/f"
    );
    assert_eq!(
        shown(&set_autostart_state(false, Ok(text("x")), "").unwrap()),
        "schtasks /delete|/tn|RustBox|/f"
    );
    assert_eq!(
        set_autostart_state(true, Ok(text("x")), ""),
        Err(text("Could not determine username for task creation"))
    );
    assert_eq!(set_autostart_state(false, Err(text("e")), "me"), Err(text("e")));
}

#[test]
fn creating_the_task_must_succeed() {
    assert_eq!(autostart_outcome(true, Ok((true, vec![]))), Ok(()));
    assert_eq!(
        autostart_outcome(true, Ok((false, b"denied".to_vec()))),
        Err(text("schtasks create failed: denied"))
    );
    assert_eq!(
        autostart_outcome(true, Ok((false, vec![0x61, 0xff]))),
        Err(text("schtasks create failed: a\u{fffd}"))
    );
    assert_eq!(autostart_outcome(true, Err(text("e"))), Err(text("e")));
    assert_eq!(autostart_outcome(false, Err(text("e"))), Ok(()));
    assert_eq!(task_failure("x"), "schtasks create failed: x");
}

#[test]
fn the_first_method_that_succeeds_decides() {
    let (mut installer, ask) = install_app("sing-box");
    assert_eq!(ask, InstallAsk::Version(Method::Winget.version_line()));
    // All are asked first, and what they answer does not matter.
    assert_eq!(
        installer.step(InstallEvent::Version(None)),
        InstallAsk::Version(Method::Choco.version_line())
    );
    assert_eq!(
        installer.step(InstallEvent::Version(Some(true))),
        InstallAsk::Version(Method::Scoop.version_line())
    );
    assert_eq!(
        installer.step(InstallEvent::Version(Some(false))),
        InstallAsk::Version(Method::Winget.version_line())
    );
    assert_eq!(installer.stage, InstallStage::Asking(Method::Winget));
    assert_eq!(
        installer.step(InstallEvent::Version(Some(true))),
        InstallAsk::Run { line: Method::Winget.install_line("sing-box"), timeout_secs: 60 }
    );
    assert_eq!(
        installer.step(InstallEvent::Ran(None)),
        InstallAsk::Version(Method::Choco.version_line())
    );
    assert_eq!(
        installer.step(InstallEvent::Version(Some(true))),
        InstallAsk::Run { line: Method::Choco.install_line("sing-box"), timeout_secs: 60 }
    );
    assert_eq!(installer.step(InstallEvent::Ran(Some(true))), InstallAsk::Search(text("sing-box")));
    assert_eq!(
        installer.step(InstallEvent::Searched(Some(text("p")))),
        InstallAsk::Done(Ok(text("p")))
    );
    assert_eq!(installer.stage, InstallStage::Finished);
}

#[test]
fn installing_can_fail() {
    let (mut installer, _) = install_app("x");
    for _ in 0..3 {
        installer.step(InstallEvent::Version(Some(true)));
    }
    installer.step(InstallEvent::Version(None));
    installer.step(InstallEvent::Version(Some(false)));
    installer.step(InstallEvent::Version(Some(true)));
    assert_eq!(
        installer.step(InstallEvent::Ran(Some(false))),
        InstallAsk::Done(Err(text("No installation method succeeded")))
    );
    let mut installer =
        Installer { app_name: text("x"), stage: InstallStage::Searching(Method::Scoop) };
    assert_eq!(
        installer.step(InstallEvent::Searched(None)),
        InstallAsk::Done(Err(text("Binary not found after scoop install")))
    );
    assert!(is_available(Some(true)) && !is_available(Some(false)) && !is_available(None));
}
