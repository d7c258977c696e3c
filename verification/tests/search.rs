use rust_box::command::source_line;
use rust_box::locate::{
    find_app_binary, find_app_by_name, find_installed, names_executable, resolve_app_path,
    source_path, DirEntry, Locator, Look, Seen,
};

fn text(s: &str) -> String {
    s.to_string()
}

fn check_file(path: &str) -> Look {
    Look::Exists(text(path))
}

fn read_dir(path: &str) -> Look {
    Look::ReadDir(text(path))
}

fn entry(path: &str, is_dir: bool) -> DirEntry {
    let name = text(path.rsplit('/').next().unwrap());
    DirEntry::named(text(path), is_dir, Some(name))
}

fn nothing_named(locator: &mut Locator) -> Look {
    locator.step(Seen::Source(None))
}

#[test]
fn a_path_that_exists_is_taken() {
    let (mut locator, look) = resolve_app_path("C:\\Apps\\Box.EXE", &None, &None);
    assert_eq!(look, check_file("C:\\Apps\\Box.EXE"));
    assert_eq!(locator.step(Seen::Exists(true)), Look::Found(Some(text("C:\\Apps\\Box.EXE"))));
}

#[test]
fn a_path_that_does_not_exist_is_a_name() {
    let (mut locator, look) = resolve_app_path("d/box.exe", &None, &None);
    assert_eq!(look, check_file("d/box.exe"));
    assert_eq!(locator.step(Seen::Exists(false)), Look::Source(source_line("d/box.exe")));
}

#[test]
fn a_setting_may_be_empty() {
    let (_, look) = resolve_app_path("", &None, &None);
    assert_eq!(look, Look::Found(None));
    assert!(names_executable("a/b.Exe", "a/b.exe"));
    assert!(!names_executable("b.exe", "b.exe"));
    assert!(!names_executable("a/b", "a/b"));
}

#[test]
fn the_shell_names_a_path() {
    let (mut locator, look) = find_app_by_name("box");
    assert_eq!(look, Look::Source(source_line("box")));
    assert_eq!(
        locator.step(Seen::Source(Some((true, b" C:\\box.exe\r\n".to_vec())))),
        check_file("C:\\box.exe")
    );
    assert_eq!(locator.step(Seen::Exists(true)), Look::Found(Some(text("C:\\box.exe"))));
    assert_eq!(source_path(Some((false, b"x".to_vec()))), None);
    assert_eq!(source_path(Some((true, b" \n".to_vec()))), None);
    assert_eq!(source_path(Some((true, vec![0xff]))), None);
    assert_eq!(source_path(None), None);
}

#[test]
fn all_places_are_tried_in_turn() {
    let (mut locator, look) = find_app_binary("box", &Some(text("D:\\L")), &Some(text("me")));
    assert_eq!(look, Look::Source(source_line("box")));
    assert_eq!(nothing_named(&mut locator), check_file("C:\\ProgramData\\chocolatey\\bin\\box.exe"));
    assert_eq!(locator.step(Seen::Exists(false)), read_dir("C:\\ProgramData\\chocolatey\\lib\\box"));
    assert_eq!(locator.step(Seen::Entries(vec![])), read_dir("D:\\L\\Microsoft\\WinGet\\Packages"));
    assert_eq!(
        locator.step(Seen::Entries(vec![])),
        check_file("C:\\Users\\me\\scoop\\apps\\box\\current\\box.exe")
    );
    assert_eq!(locator.step(Seen::Exists(false)), check_file("C:\\Program Files\\box\\box.exe"));
    assert_eq!(locator.step(Seen::Exists(false)), check_file("C:\\Program Files (x86)\\box\\box.exe"));
    assert_eq!(locator.step(Seen::Exists(false)), Look::Found(None));
}

#[test]
fn after_an_installation_the_shell_is_asked_again() {
    let (mut locator, _) = find_installed("box", &None, &None);
    nothing_named(&mut locator);
    locator.step(Seen::Exists(false));
    assert_eq!(locator.step(Seen::Entries(vec![])), check_file("C:\\Program Files\\box\\box.exe"));
    locator.step(Seen::Exists(false));
    assert_eq!(locator.step(Seen::Exists(false)), Look::Source(source_line("box")));
    assert_eq!(nothing_named(&mut locator), Look::Found(None));
}

#[test]
fn directories_are_gone_through_where_they_stand() {
    let (mut locator, _) = find_app_binary("Box", &None, &None);
    nothing_named(&mut locator);
    locator.step(Seen::Exists(false));
    // A file beside the package directories does not count.
    let top = vec![entry("l/box.exe", false), entry("l/one", true), entry("l/two", true)];
    assert_eq!(locator.step(Seen::Entries(top)), read_dir("l/one"));
    let one = vec![
        entry("l/one/box.dll", false),
        entry("l/one/deep", true),
        entry("l/one/bOX.exe", false),
    ];
    assert_eq!(locator.step(Seen::Entries(one)), read_dir("l/one/deep"));
    let deep = vec![entry("l/one/deep/other.exe", false), entry("l/one/deep/box.EXE", false)];
    assert_eq!(locator.step(Seen::Entries(deep)), Look::Found(Some(text("l/one/bOX.exe"))));
}

#[test]
fn a_directory_that_holds_nothing_is_left() {
    let (mut locator, _) = find_app_binary("box", &None, &None);
    nothing_named(&mut locator);
    locator.step(Seen::Exists(false));
    let top = vec![entry("l/one", true), entry("l/two", true)];
    assert_eq!(locator.step(Seen::Entries(top)), read_dir("l/one"));
    assert_eq!(locator.step(Seen::Entries(vec![])), read_dir("l/two"));
    assert_eq!(
        locator.step(Seen::Entries(vec![entry("l/two/x.exe", false)])),
        check_file("C:\\Program Files\\box\\box.exe")
    );
}

#[test]
fn an_entry_has_a_stem_and_an_extension() {
    let e = DirEntry::new(text("a/b/box.tar.exe"), false);
    assert_eq!(e.path, "a/b/box.tar.exe");
    assert_eq!(e.stem, Some(text("box.tar")));
    assert_eq!(e.extension, Some(text("exe")));
    assert_eq!(DirEntry::new(text("box"), true).extension, None);
    assert!(e.is_executable_named("x", "x"));
    assert!(!e.is_executable_named("x", "y"));
    assert!(!DirEntry::new(text("box.exe"), true).is_executable_named("x", "x"));
    assert!(!DirEntry::named(text(".."), false, None).is_executable_named("x", "x"));
}

#[test]
fn an_entry_of_a_directory_with_backslashes() {
    let e = DirEntry::named(text("C:\\Apps\\Box.exe"), false, Some(text("Box.exe")));
    assert_eq!(e.path, "C:\\Apps\\Box.exe");
    assert_eq!(e.stem, Some(text("Box")));
    assert_eq!(e.extension, Some(text("exe")));
    // Whatever separates the parts of a path, the extension is the same.
    let e = DirEntry::new(text("C:\\Apps\\Box.exe"), false);
    assert_eq!(e.extension, Some(text("exe")));
    let stem = if std::path::is_separator('\\') { "Box" } else { "C:\\Apps\\Box" };
    assert_eq!(e.stem, Some(text(stem)));
}

#[test]
fn the_executable_is_found_behind_backslashes() {
    let (mut locator, _) = find_app_binary("box", &None, &None);
    nothing_named(&mut locator);
    locator.step(Seen::Exists(false));
    let lib = "C:\\ProgramData\\chocolatey\\lib\\box\\tools";
    let tools = DirEntry::named(text(lib), true, Some(text("tools")));
    assert_eq!(locator.step(Seen::Entries(vec![tools])), read_dir(lib));
    let path = format!("{}\\Box.exe", lib);
    let found = DirEntry::named(path.clone(), false, Some(text("Box.exe")));
    assert_eq!(locator.step(Seen::Entries(vec![found])), Look::Found(Some(path)));
}
