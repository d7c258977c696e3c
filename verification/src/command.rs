//! The command lines of the programs that are run: for processes, for scheduled tasks,
//! for package managers and for PowerShell.

use vstd::prelude::*;

use crate::external::{decode_lossy, decode_text, text_result_view, utf8_lossy};
use crate::text::{
    decimal, decimal_text, has_part, law_decimal_is_digits, occurs_in, option_view, views,
};
use vstd::utf8::{
    decode_utf8, encode_utf8, encode_utf8_decode_utf8, encode_utf8_valid_utf8, valid_utf8,
};

verus! {

/// The name of the scheduled task that starts the tray application.
pub const TASK_NAME: &'static str = "RustBox";

/// The script that removes the network adapters a tunnel may have left behind.
pub const REMOVE_TUN_SCRIPT: &'static str = r#"
$adapter = Get-NetAdapter | Where-Object { $_.Name -like "*tun*" -or $_.Name -like "*sing*" -or $_.Name -like "*wintun*" }
if ($adapter) {
    $adapter | Disable-NetAdapter -Confirm:$false -ErrorAction SilentlyContinue
    Start-Sleep -Seconds 2
    $adapter | Remove-NetAdapter -Confirm:$false -ErrorAction SilentlyContinue
    Start-Sleep -Seconds 3
    Write-Host "TUN adapter removed"
} else {
    Write-Host "No TUN adapter found"
}
"#;

/// A program and the arguments that it is run with.
#[derive(Debug, PartialEq, Eq)]
pub struct Invocation {
    pub program: String,
    pub args: Vec<String>,
}

/// A command line.
pub struct CommandLine {
    pub program: Seq<char>,
    pub args: Seq<Seq<char>>,
}

impl View for Invocation {
    type V = CommandLine;

    open spec fn view(&self) -> CommandLine {
        CommandLine { program: self.program@, args: views(self.args@) }
    }
}

/// A package manager.
#[derive(Clone, Copy, PartialEq, Eq, Structural, Debug)]
pub enum Method {
    Winget,
    Choco,
    Scoop,
}

/// The program of a package manager.
pub open spec fn method_name(method: Method) -> Seq<char> {
    match method {
        Method::Winget => "winget"@,
        Method::Choco => "choco"@,
        Method::Scoop => "scoop"@,
    }
}

/// Ends every process that runs the named program.
pub open spec fn kill_by_name(name: Seq<char>) -> CommandLine {
    CommandLine { program: "taskkill"@, args: seq!["/F"@, "/IM"@, name] }
}

/// Asks a process to end, or ends it by force.
pub open spec fn kill_by_pid(pid: u32, force: bool) -> CommandLine {
    CommandLine {
        program: "taskkill"@,
        args: if force {
            seq!["/F"@, "/PID"@, decimal(pid as nat)]
        } else {
            seq!["/PID"@, decimal(pid as nat)]
        },
    }
}

/// Lists the process with this number, without a heading.
pub open spec fn list_process(pid: u32) -> CommandLine {
    CommandLine {
        program: "tasklist"@,
        args: seq!["/FI"@, "PID eq "@ + decimal(pid as nat), "/NH"@],
    }
}

/// Asks a package manager for its version.
pub open spec fn ask_version(method: Method) -> CommandLine {
    CommandLine { program: method_name(method), args: seq!["--version"@] }
}

/// Has a package manager install an application, without asking anything.
pub open spec fn install_line(method: Method, app_name: Seq<char>) -> CommandLine {
    CommandLine {
        program: method_name(method),
        args: match method {
            Method::Winget => seq![
                "install"@,
                "--id"@,
                app_name,
                "-e"@,
                "--silent"@,
                "--source"@,
                "winget"@,
                "--accept-source-agreements"@,
                "--accept-package-agreements"@,
                "--disable-interactivity"@,
            ],
            Method::Choco => seq!["install"@, app_name, "-y"@, "--accept-license"@],
            Method::Scoop => seq!["install"@, app_name],
        },
    }
}

/// Runs a script in PowerShell.
pub open spec fn powershell(script: Seq<char>) -> CommandLine {
    CommandLine { program: "powershell"@, args: seq!["-NoProfile"@, "-Command"@, script] }
}

/// Runs a script in PowerShell whatever the execution policy is.
pub open spec fn powershell_bypass(script: Seq<char>) -> CommandLine {
    CommandLine {
        program: "powershell"@,
        args: seq!["-NoProfile"@, "-ExecutionPolicy"@, "Bypass"@, "-Command"@, script],
    }
}

/// The script that asks where a command is found.
pub open spec fn source_script(app_name: Seq<char>) -> Seq<char> {
    "Get-Command "@ + app_name
        + " -ErrorAction SilentlyContinue | Select-Object -ExpandProperty Source"@
}

/// The script that starts the application, hidden and with elevated rights, and prints
/// the number of its process.
pub open spec fn launch_script(app_path: Seq<char>, cfg_path: Seq<char>) -> Seq<char> {
    "$p = Start-Process -FilePath \""@ + app_path + "\" -ArgumentList \"run\",\"-c\",\""@ + cfg_path
        + "\" -Verb RunAs -WindowStyle Hidden -PassThru; if ($p) { $p.Id }"@
}

/// Opens a file in the editor.
pub open spec fn edit_file(path: Seq<char>) -> CommandLine {
    CommandLine { program: "notepad"@, args: seq![path] }
}

/// Asks whether the scheduled task exists.
pub open spec fn query_task() -> CommandLine {
    CommandLine { program: "schtasks"@, args: seq!["/query"@, "/tn"@, TASK_NAME@] }
}

/// Creates the scheduled task: the executable is started with the highest rights when
/// the user logs on.
pub open spec fn create_task(exe_path: Seq<char>, username: Seq<char>) -> CommandLine {
    CommandLine {
        program: "schtasks"@,
        args: seq![
            "/create"@,
            "/tn"@,
            TASK_NAME@,
            "/tr"@,
            "\""@ + exe_path + "\""@,
            "/sc"@,
            "onlogon"@,
            "/ru"@,
            username,
            "/rl"@,
            "HIGHEST"@,
            "/it"@,
            "/f"@,
        ],
    }
}

/// Deletes the scheduled task.
pub open spec fn delete_task() -> CommandLine {
    CommandLine { program: "schtasks"@, args: seq!["/delete"@, "/tn"@, TASK_NAME@, "/f"@] }
}

/// The command line that ends every process that runs the named program.
pub fn kill_by_name_line(name: &str) -> (r: Invocation)
    ensures
        r@ == kill_by_name(name@),
{
    let r = Invocation {
        program: "taskkill".to_string(),
        args: vec!["/F".to_string(), "/IM".to_string(), name.to_string()],
    };
    assert(views(r.args@) =~= kill_by_name(name@).args);
    r
}

/// The command line that asks a process to end, or ends it by force.
pub fn kill_by_pid_line(pid: u32, force: bool) -> (r: Invocation)
    ensures
        r@ == kill_by_pid(pid, force),
{
    let args = if force {
        vec!["/F".to_string(), "/PID".to_string(), decimal_text(pid)]
    } else {
        vec!["/PID".to_string(), decimal_text(pid)]
    };
    assert(views(args@) =~= kill_by_pid(pid, force).args);
    Invocation { program: "taskkill".to_string(), args }
}

/// The command line that lists the process with this number.
pub fn list_process_line(pid: u32) -> (r: Invocation)
    ensures
        r@ == list_process(pid),
{
    let args = vec![
        "/FI".to_string(),
        "PID eq ".to_string().concat(decimal_text(pid).as_str()),
        "/NH".to_string(),
    ];
    assert(views(args@) =~= list_process(pid).args);
    Invocation { program: "tasklist".to_string(), args }
}

impl Method {
    /// The program of the package manager.
    pub fn name(self) -> (r: &'static str)
        ensures
            r@ == method_name(self),
    {
        match self {
            Method::Winget => "winget",
            Method::Choco => "choco",
            Method::Scoop => "scoop",
        }
    }

    /// The command line that asks the package manager for its version.
    pub fn version_line(self) -> (r: Invocation)
        ensures
            r@ == ask_version(self),
    {
        let args = vec!["--version".to_string()];
        assert(views(args@) =~= ask_version(self).args);
        Invocation { program: self.name().to_string(), args }
    }

    /// The command line that has the package manager install an application.
    pub fn install_line(self, app_name: &str) -> (r: Invocation)
        ensures
            r@ == install_line(self, app_name@),
    {
        let args = match self {
            Method::Winget => vec![
                "install".to_string(),
                "--id".to_string(),
                app_name.to_string(),
                "-e".to_string(),
                "--silent".to_string(),
                "--source".to_string(),
                "winget".to_string(),
                "--accept-source-agreements".to_string(),
                "--accept-package-agreements".to_string(),
                "--disable-interactivity".to_string(),
            ],
            Method::Choco => vec![
                "install".to_string(),
                app_name.to_string(),
                "-y".to_string(),
                "--accept-license".to_string(),
            ],
            Method::Scoop => vec!["install".to_string(), app_name.to_string()],
        };
        assert(views(args@) =~= install_line(self, app_name@).args);
        Invocation { program: self.name().to_string(), args }
    }
}

/// The command line that runs a script in PowerShell.
pub fn powershell_line(script: &str) -> (r: Invocation)
    ensures
        r@ == powershell(script@),
{
    let args = vec!["-NoProfile".to_string(), "-Command".to_string(), script.to_string()];
    assert(views(args@) =~= powershell(script@).args);
    Invocation { program: "powershell".to_string(), args }
}

/// The command line that runs a script in PowerShell whatever the execution policy is.
pub fn powershell_bypass_line(script: &str) -> (r: Invocation)
    ensures
        r@ == powershell_bypass(script@),
{
    let args = vec![
        "-NoProfile".to_string(),
        "-ExecutionPolicy".to_string(),
        "Bypass".to_string(),
        "-Command".to_string(),
        script.to_string(),
    ];
    assert(views(args@) =~= powershell_bypass(script@).args);
    Invocation { program: "powershell".to_string(), args }
}

/// The command line that asks where a command is found.
pub fn source_line(app_name: &str) -> (r: Invocation)
    ensures
        r@ == powershell(source_script(app_name@)),
{
    powershell_line(
        "Get-Command ".to_string().concat(app_name).concat(
            " -ErrorAction SilentlyContinue | Select-Object -ExpandProperty Source",
        ).as_str(),
    )
}

/// The command line that starts the application with its configuration.
pub fn launch_line(app_path: &str, cfg_path: &str) -> (r: Invocation)
    ensures
        r@ == powershell_bypass(launch_script(app_path@, cfg_path@)),
{
    powershell_bypass_line(
        "$p = Start-Process -FilePath \"".to_string().concat(app_path).concat(
            "\" -ArgumentList \"run\",\"-c\",\"",
        ).concat(cfg_path).concat(
            "\" -Verb RunAs -WindowStyle Hidden -PassThru; if ($p) { $p.Id }",
        ).as_str(),
    )
}

/// The command line that opens a file in the editor.
pub fn edit_line(path: &str) -> (r: Invocation)
    ensures
        r@ == edit_file(path@),
{
    let args = vec![path.to_string()];
    assert(views(args@) =~= edit_file(path@).args);
    Invocation { program: "notepad".to_string(), args }
}

/// The output of a process listing holds the number, as far as it is readable.
pub open spec fn listing_shows(output: Option<Seq<u8>>, pid: u32) -> bool {
    match output {
        Some(bytes) => occurs_in(decimal(pid as nat), utf8_lossy(bytes)),
        None => false,
    }
}

/// Tells whether a process is alive, given what listing it printed; nothing if it could
/// not be listed.
pub fn is_process_alive(output: Option<Vec<u8>>, pid: u32) -> (r: bool)
    ensures
        r == listing_shows(
            match output {
                Some(bytes) => Some(bytes@),
                None => None,
            },
            pid,
        ),
        output is Some && valid_utf8(output->0@) ==> r == occurs_in(
            decimal(pid as nat),
            decode_utf8(output->0@),
        ),
{
    match output {
        Some(bytes) => listing_mentions(decode_lossy(bytes.as_slice()).as_str(), pid),
        None => false,
    }
}

/// Tells whether the text of a process listing holds the number.
pub fn listing_mentions(listing: &str, pid: u32) -> (r: bool)
    ensures
        r == occurs_in(decimal(pid as nat), listing@),
{
    has_part(listing, decimal_text(pid).as_str())
}

/// The user's name: from the environment if it is there, else what `whoami` printed if
/// that is readable, else empty.
pub open spec fn username_of(variable: Option<Seq<char>>, whoami: Option<Seq<u8>>) -> Seq<char> {
    match (variable, whoami) {
        (Some(name), _) => name,
        (None, Some(bytes)) if valid_utf8(bytes) => decode_utf8(bytes),
        _ => seq![],
    }
}

/// Finds out the user's name.
pub fn get_username(variable: Option<String>, whoami: Option<Vec<u8>>) -> (r: String)
    ensures
        r@ == username_of(
            option_view(variable),
            match whoami {
                Some(bytes) => Some(bytes@),
                None => None,
            },
        ),
{
    if let Some(name) = variable {
        return name;
    }
    match whoami {
        Some(bytes) => match decode_text(bytes) {
            Ok(name) => name,
            Err(_) => String::new(),
        },
        None => String::new(),
    }
}

/// The command line that asks whether the tray application starts by itself.
pub fn query_task_line() -> (r: Invocation)
    ensures
        r@ == query_task(),
{
    let args = vec!["/query".to_string(), "/tn".to_string(), TASK_NAME.to_string()];
    assert(views(args@) =~= query_task().args);
    Invocation { program: "schtasks".to_string(), args }
}

/// Tells whether the tray application starts by itself, given whether the query
/// succeeded; nothing if it could not be made.
pub fn get_autostart_state(succeeded: Option<bool>) -> (r: bool)
    ensures
        r == (succeeded == Some(true)),
{
    match succeeded {
        Some(succeeded) => succeeded,
        None => false,
    }
}

/// The command line that makes the tray application start by itself or not, or why
/// there is none: the executable's path or, to create the task, the user is not known.
pub open spec fn autostart_plan(
    enable: bool,
    exe_path: Result<Seq<char>, Seq<char>>,
    username: Seq<char>,
) -> Result<CommandLine, Seq<char>> {
    match exe_path {
        Err(message) => Err(message),
        Ok(exe_path) => if !enable {
            Ok(delete_task())
        } else if username.len() == 0 {
            Err("Could not determine username for task creation"@)
        } else {
            Ok(create_task(exe_path, username))
        },
    }
}

/// Decides which command line makes the tray application start by itself or not.
pub fn set_autostart_state(
    enable: bool,
    exe_path: Result<String, String>,
    username: &str,
) -> (r: Result<Invocation, String>)
    ensures
        match r {
            Ok(line) => autostart_plan(enable, text_result_view(exe_path), username@) == Ok::<
                CommandLine,
                Seq<char>,
            >(line@),
            Err(message) => autostart_plan(enable, text_result_view(exe_path), username@) == Err::<
                CommandLine,
                Seq<char>,
            >(message@),
        },
{
    let exe_path = match exe_path {
        Ok(exe_path) => exe_path,
        Err(message) => {
            return Err(message);
        },
    };
    if enable {
        if username.is_empty() {
            return Err("Could not determine username for task creation".to_string());
        }
        let args = vec![
            "/create".to_string(),
            "/tn".to_string(),
            TASK_NAME.to_string(),
            "/tr".to_string(),
            "\"".to_string().concat(exe_path.as_str()).concat("\""),
            "/sc".to_string(),
            "onlogon".to_string(),
            "/ru".to_string(),
            username.to_string(),
            "/rl".to_string(),
            "HIGHEST".to_string(),
            "/it".to_string(),
            "/f".to_string(),
        ];
        assert(views(args@) =~= create_task(exe_path@, username@).args);
        Ok(Invocation { program: "schtasks".to_string(), args })
    } else {
        let args = vec![
            "/delete".to_string(),
            "/tn".to_string(),
            TASK_NAME.to_string(),
            "/f".to_string(),
        ];
        assert(views(args@) =~= delete_task().args);
        Ok(Invocation { program: "schtasks".to_string(), args })
    }
}

/// What came of changing whether the tray application starts by itself: creating the
/// task must succeed, deleting it need not.
pub open spec fn autostart_outcome_of(
    enable: bool,
    ran: Result<(bool, Seq<u8>), Seq<char>>,
) -> Result<(), Seq<char>> {
    if !enable {
        Ok(())
    } else {
        match ran {
            Ok((true, _)) => Ok(()),
            Ok((false, stderr)) => Err("schtasks create failed: "@ + utf8_lossy(stderr)),
            Err(message) => Err(message),
        }
    }
}

/// Decides what came of changing whether the tray application starts by itself, given
/// whether the command succeeded and what it printed as errors, or why it did not run.
pub fn autostart_outcome(enable: bool, ran: Result<(bool, Vec<u8>), String>) -> (r: Result<
    (),
    String,
>)
    ensures
        match r {
            Ok(_) => autostart_outcome_of(enable, ran_view(ran)) == Ok::<(), Seq<char>>(()),
            Err(message) => autostart_outcome_of(enable, ran_view(ran)) == Err::<(), Seq<char>>(
                message@,
            ),
        },
{
    if !enable {
        return Ok(());
    }
    match ran {
        Ok((true, _)) => Ok(()),
        Ok((false, stderr)) => Err(task_failure(decode_lossy(stderr.as_slice()).as_str())),
        Err(message) => Err(message),
    }
}

/// The contents of what a command gave.
pub open spec fn ran_view(ran: Result<(bool, Vec<u8>), String>) -> Result<
    (bool, Seq<u8>),
    Seq<char>,
> {
    match ran {
        Ok((success, stderr)) => Ok((success, stderr@)),
        Err(message) => Err(message@),
    }
}

/// What is said when the scheduled task could not be created.
pub fn task_failure(stderr: &str) -> (r: String)
    ensures
        r@ == "schtasks create failed: "@ + stderr@,
{
    "schtasks create failed: ".to_string().concat(stderr)
}

/// An argument follows another one right away.
pub open spec fn follows(args: Seq<Seq<char>>, flag: Seq<char>, value: Seq<char>) -> bool {
    exists|i: int| 0 < i < args.len() && args[i - 1] == flag && #[trigger] args[i] == value
}

/// Processes are ended by the name of their program, or by their number: with force only if
/// that is asked for, and the one that was asked about. The number is what a listing is
/// filtered by.
pub proof fn law_processes_are_ended_by_name_or_number(name: Seq<char>, pid: u32, force: bool)
    ensures
        kill_by_name(name).program == "taskkill"@,
        follows(kill_by_name(name).args, "/IM"@, name),
        kill_by_name(name).args[0] == "/F"@,
        kill_by_pid(pid, force).program == "taskkill"@,
        follows(kill_by_pid(pid, force).args, "/PID"@, decimal(pid as nat)),
        kill_by_pid(pid, force).args.contains("/F"@) == force,
        kill_by_pid(pid, force).args.len() == if force {
            3int
        } else {
            2
        },
        list_process(pid).program == "tasklist"@,
        follows(list_process(pid).args, "/FI"@, "PID eq "@ + decimal(pid as nat)),
{
    reveal_strlit("/F");
    reveal_strlit("/PID");
    law_decimal_is_digits(pid as nat);
    let digits = decimal(pid as nat);
    assert('0' <= digits[0] <= '9');
    assert("/F"@[0] == '/' && digits[0] != '/');
    assert("/F"@[1] != "/PID"@[1]);
    let args = kill_by_pid(pid, force).args;
    assert(kill_by_name(name).args[2] == name);
    assert(list_process(pid).args[1] == "PID eq "@ + digits);
    if force {
        assert(args[0] == "/F"@);
        assert(args[2] == digits);
    } else {
        assert(args[1] == digits);
    }
}

/// Each package manager is run by its own name, and told the application's name to install.
pub proof fn law_package_managers_install_by_name(method: Method, app_name: Seq<char>)
    ensures
        install_line(method, app_name).program == ask_version(method).program,
        install_line(method, app_name).program == match method {
            Method::Winget => "winget"@,
            Method::Choco => "choco"@,
            Method::Scoop => "scoop"@,
        },
        install_line(method, app_name).args[0] == "install"@,
        follows(
            install_line(method, app_name).args,
            if method is Winget {
                "--id"@
            } else {
                "install"@
            },
            app_name,
        ),
        method is Winget ==> install_line(method, app_name).args.contains("--silent"@)
            && install_line(method, app_name).args.contains("--disable-interactivity"@)
            && install_line(method, app_name).args.contains("--accept-package-agreements"@),
        method is Choco ==> install_line(method, app_name).args.contains("-y"@),
        ask_version(method).args == seq!["--version"@],
{
    let args = install_line(method, app_name).args;
    match method {
        Method::Winget => {
            assert(args[2] == app_name);
            assert(args[4] == "--silent"@ && args[8] == "--accept-package-agreements"@);
            assert(args[9] == "--disable-interactivity"@);
        },
        Method::Choco => {
            assert(args[1] == app_name && args[2] == "-y"@);
        },
        Method::Scoop => {
            assert(args[1] == app_name);
        },
    }
}

/// The part stands between the two others in the text.
pub open spec fn stands_between(
    text: Seq<char>,
    before: Seq<char>,
    part: Seq<char>,
    after: Seq<char>,
) -> bool {
    occurs_in(before + part + after, text)
}

/// What stands in the middle of a text occurs in it.
proof fn lemma_occurs(a: Seq<char>, part: Seq<char>, b: Seq<char>)
    ensures
        occurs_in(part, a + part + b),
{
    let text = a + part + b;
    let start = a.len() as int;
    assert(text.subrange(start, start + part.len()) =~= part);
}

/// A script is handed to PowerShell as the last argument, as it is. The script that starts
/// the application names its executable and its configuration, each in quotes, and runs it
/// with elevated rights and hidden. The script that asks for a command names it.
pub proof fn law_scripts_name_what_they_are_about(
    script: Seq<char>,
    app_path: Seq<char>,
    cfg_path: Seq<char>,
)
    ensures
        powershell(script).program == "powershell"@ && powershell(script).args.last() == script,
        powershell_bypass(script).program == "powershell"@,
        powershell_bypass(script).args.last() == script,
        follows(powershell_bypass(script).args, "-ExecutionPolicy"@, "Bypass"@),
        stands_between(launch_script(app_path, cfg_path), "-FilePath \""@, app_path, "\" "@),
        stands_between(launch_script(app_path, cfg_path), "\"run\",\"-c\",\""@, cfg_path, "\" "@),
        occurs_in("-Verb RunAs"@, launch_script(app_path, cfg_path)),
        occurs_in("-WindowStyle Hidden"@, launch_script(app_path, cfg_path)),
        occurs_in("$p.Id"@, launch_script(app_path, cfg_path)),
        stands_between(source_script(app_path), "Get-Command "@, app_path, " "@),
        "Get-Command "@.is_prefix_of(source_script(app_path)),
        edit_file(cfg_path).program == "notepad"@ && edit_file(cfg_path).args == seq![cfg_path],
{
    reveal_strlit("$p = Start-Process -FilePath \"");
    reveal_strlit("\" -ArgumentList \"run\",\"-c\",\"");
    reveal_strlit("\" -Verb RunAs -WindowStyle Hidden -PassThru; if ($p) { $p.Id }");
    reveal_strlit("-FilePath \"");
    reveal_strlit("\" ");
    reveal_strlit("\"run\",\"-c\",\"");
    reveal_strlit("-Verb RunAs");
    reveal_strlit("-WindowStyle Hidden");
    reveal_strlit("$p.Id");
    reveal_strlit("Get-Command ");
    reveal_strlit(" ");
    reveal_strlit(" -ErrorAction SilentlyContinue | Select-Object -ExpandProperty Source");
    let head = "$p = Start-Process -FilePath \""@;
    let middle = "\" -ArgumentList \"run\",\"-c\",\""@;
    let tail = "\" -Verb RunAs -WindowStyle Hidden -PassThru; if ($p) { $p.Id }"@;
    let whole = launch_script(app_path, cfg_path);
    let asked = source_script(app_path);
    let rest = " -ErrorAction SilentlyContinue | Select-Object -ExpandProperty Source"@;
    assert(powershell_bypass(script).args[2] == "Bypass"@);
    let a = "-FilePath \""@ + app_path + "\" "@;
    assert(head =~= head.take(head.len() - 11) + "-FilePath \""@);
    assert(middle =~= "\" "@ + middle.skip(2));
    lemma_occurs(head.take(head.len() - 11), a, middle.skip(2) + cfg_path + tail);
    assert(whole =~= head.take(head.len() - 11) + a + (middle.skip(2) + cfg_path + tail));
    let c = "\"run\",\"-c\",\""@ + cfg_path + "\" "@;
    let n = "\"run\",\"-c\",\""@.len();
    assert(middle =~= middle.take(middle.len() - n) + "\"run\",\"-c\",\""@);
    assert(tail =~= "\" "@ + tail.skip(2));
    lemma_occurs(head + app_path + middle.take(middle.len() - n), c, tail.skip(2));
    assert(whole =~= head + app_path + middle.take(middle.len() - n) + c + tail.skip(2));
    let before = head + app_path + middle + cfg_path;
    lemma_occurs_in_tail(before, tail, "-Verb RunAs"@, 2);
    lemma_occurs_in_tail(before, tail, "-WindowStyle Hidden"@, 14);
    lemma_occurs_in_tail(before, tail, "$p.Id"@, tail.len() - 7);
    assert(whole =~= before + tail);
    let none: Seq<char> = seq![];
    let g = "Get-Command "@ + app_path + " "@;
    assert(rest =~= " "@ + rest.skip(1));
    lemma_occurs(none, g, rest.skip(1));
    assert(asked =~= none + g + rest.skip(1));
    assert(asked.take("Get-Command "@.len() as int) =~= "Get-Command "@);
}

/// What stands somewhere in the end of a text occurs in the text.
proof fn lemma_occurs_in_tail(before: Seq<char>, tail: Seq<char>, part: Seq<char>, at: int)
    requires
        0 <= at && at + part.len() <= tail.len(),
        tail.subrange(at, at + part.len()) =~= part,
    ensures
        occurs_in(part, before + tail),
{
    let text = before + tail;
    let start = before.len() + at;
    assert(text.subrange(start, start + part.len()) =~= tail.subrange(at, at + part.len()));
}

/// The automatic start is a scheduled task, the same one whether it is looked for, created or
/// deleted. It is created for the user, to run the executable with its path in quotes; that
/// takes a user that is known. It is deleted whoever the user is.
pub proof fn law_automatic_start_is_one_task(
    exe_path: Seq<char>,
    username: Seq<char>,
    message: Seq<char>,
    enable: bool,
)
    ensures
        username.len() > 0 ==> ({
            let plan = autostart_plan(true, Ok(exe_path), username);
            &&& plan is Ok && plan->Ok_0.program == "schtasks"@
            &&& plan->Ok_0.args[0] == "/create"@
            &&& follows(plan->Ok_0.args, "/tn"@, "RustBox"@)
            &&& follows(plan->Ok_0.args, "/tr"@, "\""@ + exe_path + "\""@)
            &&& follows(plan->Ok_0.args, "/sc"@, "onlogon"@)
            &&& follows(plan->Ok_0.args, "/ru"@, username)
            &&& follows(plan->Ok_0.args, "/rl"@, "HIGHEST"@)
        }),
        autostart_plan(true, Ok(exe_path), seq![]) is Err,
        ({
            let plan = autostart_plan(false, Ok(exe_path), username);
            &&& plan is Ok && plan->Ok_0.program == "schtasks"@
            &&& plan->Ok_0.args[0] == "/delete"@
            &&& follows(plan->Ok_0.args, "/tn"@, "RustBox"@)
        }),
        query_task().program == "schtasks"@ && query_task().args[0] == "/query"@,
        follows(query_task().args, "/tn"@, "RustBox"@),
        autostart_plan(enable, Err(message), username) == Err::<CommandLine, Seq<char>>(message),
{
    let create = create_task(exe_path, username).args;
    assert(create[2] == TASK_NAME@);
    assert(create[4] == "\""@ + exe_path + "\""@);
    assert(create[6] == "onlogon"@);
    assert(create[8] == username);
    assert(create[10] == "HIGHEST"@);
    assert(delete_task().args[2] == TASK_NAME@);
    assert(query_task().args[2] == TASK_NAME@);
}

/// Switching the automatic start on succeeds if and only if the task was created; switching it
/// off always does. A failure says what was printed, or why nothing was run.
pub proof fn law_automatic_start_is_on_if_the_task_was_created(
    ran: Result<(bool, Seq<u8>), Seq<char>>,
    stderr: Seq<u8>,
    message: Seq<char>,
)
    ensures
        autostart_outcome_of(true, ran) is Ok == matches!(ran, Ok((true, _))),
        autostart_outcome_of(false, ran) is Ok,
        autostart_outcome_of(true, Err(message)) == Err::<(), Seq<char>>(message),
        ({
            let outcome = autostart_outcome_of(true, Ok((false, stderr)));
            outcome is Err && utf8_lossy(stderr).is_suffix_of(outcome->Err_0)
        }),
{
    let said = "schtasks create failed: "@ + utf8_lossy(stderr);
    assert(utf8_lossy(stderr) =~= said.skip(said.len() - utf8_lossy(stderr).len()));
}

/// The user's name is the one in the environment, whatever `whoami` would say. Without it,
/// it is what `whoami` printed, as it is, and nothing where that is no text.
pub proof fn law_user_is_the_one_of_the_environment(
    name: Seq<char>,
    whoami: Option<Seq<u8>>,
    bytes: Seq<u8>,
)
    ensures
        username_of(Some(name), whoami) == name,
        username_of(None, Some(encode_utf8(name))) == name,
        !valid_utf8(bytes) ==> username_of(None, Some(bytes)).len() == 0,
        username_of(None, None).len() == 0,
{
    encode_utf8_valid_utf8(name);
    encode_utf8_decode_utf8(name);
}

/// A process is alive if its number stands anywhere in the listing, and it is not if the
/// listing could not be made or is empty.
pub proof fn law_listed_process_is_alive(
    left: Seq<char>,
    pid: u32,
    right: Seq<char>,
    bytes: Seq<u8>,
)
    ensures
        utf8_lossy(bytes) == left + decimal(pid as nat) + right ==> listing_shows(
            Some(bytes),
            pid,
        ),
        utf8_lossy(bytes).len() == 0 ==> !listing_shows(Some(bytes), pid),
        !listing_shows(None, pid),
{
    lemma_occurs(left, decimal(pid as nat), right);
    law_decimal_is_digits(pid as nat);
}

} // verus!
