use rust_box::config::{
    decode_b64, decoded_text, Config, ConfigError, DefaultConfig, ReadFile, DEFAULT_APP_PATH,
    DEFAULT_CFG_PATH, DEFAULT_CONFIG_NAME, INVALID_UTF8,
};
use rust_box::setup::{plan_creation, SetupAction, SetupEvent, SetupState};

fn text(s: &str) -> String {
    s.to_string()
}

fn whole(content: &[u8]) -> ReadFile {
    ReadFile { content: content.to_vec(), failure: None }
}

fn read(content: &str) -> (Result<Config, ConfigError>, Vec<String>) {
    let mut notices = Vec::new();
    let r = Config::from_reader(whole(content.as_bytes()), &mut notices);
    (r, notices)
}

fn load(content: &str) -> Result<Config, ConfigError> {
    Config::load_from_path(Ok(whole(content.as_bytes())), &mut Vec::new())
}

fn config(app: &str, cfg: &str) -> Config {
    Config::new(Some(text(app)), Some(text(cfg)))
}

#[test]
fn a_line_is_a_key_and_a_value() {
    assert_eq!(
        Config::parse_line("  app_path =  sing-box \t").unwrap(),
        Some((text("app_path"), text("sing-box")))
    );
    assert_eq!(Config::parse_line("a=b=c").unwrap(), Some((text("a"), text("b=c"))));
    assert_eq!(Config::parse_line("\u{3000}k=\u{a0}v\r").unwrap(), Some((text("k"), text("v"))));
}

#[test]
fn empty_lines_and_comments_say_nothing() {
    assert_eq!(Config::parse_line("").unwrap(), None);
    assert_eq!(Config::parse_line(" \t ").unwrap(), None);
    assert_eq!(Config::parse_line("# app_path=x").unwrap(), None);
    assert_eq!(Config::parse_line("   #").unwrap(), None);
}

#[test]
fn lines_that_are_not_understood() {
    assert_eq!(
        Config::parse_line(" nonsense "),
        Err(ConfigError::ParseError(text("Line 'nonsense' missing separator '='")))
    );
    assert_eq!(Config::parse_line(" = value"), Err(ConfigError::ParseError(text("Empty key"))));
    assert_eq!(
        Config::parse_line("key = "),
        Err(ConfigError::ParseError(text("Empty value for key 'key'")))
    );
}

#[test]
fn the_last_value_counts() {
    let (r, notices) = read("app_path=a\ncfg_path=b\r\n\n# x\napp_path=c");
    assert_eq!(r.unwrap(), config("c", "b"));
    assert!(notices.is_empty());
}

#[test]
fn unknown_keys_are_mentioned_up_to_the_first_error() {
    let (r, notices) = read("one=1\napp_path=a\ntwo=2\nbad\nthree=3");
    assert_eq!(r, Err(ConfigError::ParseError(text("Line 'bad' missing separator '='"))));
    assert_eq!(notices, vec![text("Unknown config key: one = 1"), text("Unknown config key: two = 2")]);
}

#[test]
fn bytes_that_are_no_text_fail_to_read() {
    let mut notices = Vec::new();
    let r = Config::from_reader(whole(b"app_path=a\nx=\xff\n"), &mut notices);
    assert_eq!(r, Err(ConfigError::IoError(text(INVALID_UTF8))));
    assert_eq!(INVALID_UTF8, "stream did not contain valid UTF-8");
}

#[test]
fn settings_must_be_complete() {
    assert_eq!(load("app_path=a\ncfg_path=b\n").unwrap(), config("a", "b"));
    assert_eq!(load("cfg_path=b\n"), Err(ConfigError::MissingField(text("app_path is required"))));
    assert_eq!(load("app_path=a"), Err(ConfigError::MissingField(text("cfg_path is required"))));
    assert_eq!(load(""), Err(ConfigError::MissingField(text("app_path is required"))));
    assert!(config("a", "b").check_required().is_ok());
    assert!(Config::new(None, None).check_required().is_err());
}

#[test]
fn a_file_that_cannot_be_read() {
    let mut notices = Vec::new();
    assert_eq!(
        Config::load_from_path(Err(text("not found")), &mut notices),
        Err(ConfigError::IoError(text("not found")))
    );
    assert_eq!(
        Config::load_or_create_default(Err(text("No exe dir")), &mut notices),
        Err(ConfigError::IoError(text("No exe dir")))
    );
    assert_eq!(
        Config::load_or_create_default(Ok(Ok(whole(b"app_path=a\ncfg_path=b"))), &mut notices),
        Ok(config("a", "b"))
    );
    assert!(notices.is_empty());
}

#[test]
fn a_file_that_is_read_in_part() {
    let part = |content: &str| {
        let mut notices = Vec::new();
        let file = ReadFile {
            content: content.as_bytes().to_vec(),
            failure: Some(text("device gone")),
        };
        (Config::load_from_path(Ok(file), &mut notices), notices)
    };
    let failed: Result<Config, ConfigError> = Err(ConfigError::IoError(text("device gone")));
    assert_eq!(part(""), (failed, vec![]));
    // A line that is not understood comes before the failure, one that was not read to its
    // end does not count.
    assert_eq!(
        part("one=1\nbad\ntwo=2\n"),
        (
            Err(ConfigError::ParseError(text("Line 'bad' missing separator '='"))),
            vec![text("Unknown config key: one = 1")]
        )
    );
    assert_eq!(
        part("app_path=a\ncfg_path=b\none=1\nbad"),
        (
            Err(ConfigError::IoError(text("device gone"))),
            vec![text("Unknown config key: one = 1")]
        )
    );
    assert_eq!(part("bad").0, Err(ConfigError::IoError(text("device gone"))));
}

#[test]
fn unknown_keys_do_not_matter() {
    assert_eq!(load("x=1\napp_path=a\ny=2\ncfg_path=b\nz=3").unwrap(), config("a", "b"));
}

#[test]
fn the_last_update_is_the_only_one() {
    for content in ["", "\n", "app_path=a", "app_path=a\n", "app_path=a\r\ncfg_path=b\r\n#c"] {
        let once = Config::update_cfg_path(content, "p");
        assert_eq!(
            Config::update_cfg_path(&once, "q"),
            Config::update_cfg_path(content, "q"),
            "{}",
            content
        );
    }
    // An empty last line is lost.
    let once = Config::update_cfg_path("cfg_path=b\n\n", "p");
    assert_eq!(once, "cfg_path=p\n");
    assert_eq!(Config::update_cfg_path(&once, "q"), "cfg_path=q");
}

#[test]
fn the_first_path_line_is_replaced() {
    assert_eq!(
        Config::update_cfg_path("app_path=a\r\ncfg_path=b\ncfg_path=c\n", "d e"),
        "app_path=a\ncfg_path=d e\ncfg_path=c"
    );
    assert_eq!(Config::update_cfg_path("app_path=a\n", "d"), "app_path=a\ncfg_path=d");
    assert_eq!(Config::update_cfg_path("", "d"), "cfg_path=d");
    assert_eq!(Config::update_cfg_path(" cfg_path=b", "d"), " cfg_path=b\ncfg_path=d");
}

#[test]
fn an_updated_path_reads_back() {
    let updated = Config::update_cfg_path("# mine\napp_path=a\ncfg_path=b\n", "c.json");
    assert_eq!(load(&updated).unwrap(), config("a", "c.json"));
}

#[test]
fn a_later_path_hides_the_updated_one() {
    let updated = Config::update_cfg_path("app_path=a\ncfg_path=b\ncfg_path=c\n", "d");
    assert_eq!(load(&updated).unwrap(), config("a", "c"));
}

#[test]
fn the_last_update_wins() {
    let once = Config::update_cfg_path("app_path=a\r\n# note\ncfg_path=b\n\n", "c d.json");
    let twice = Config::update_cfg_path(&once, "C:\\e.json");
    assert_eq!(load(&twice).unwrap(), config("a", "C:\\e.json"));
    let once = Config::update_cfg_path("app_path=a", "b");
    assert_eq!(load(&Config::update_cfg_path(&once, "c")).unwrap(), config("a", "c"));
}

#[test]
fn loaded_settings_read_back() {
    let loaded = load(" app_path =  x = y \r\ncfg_path=\tc.json").unwrap();
    assert_eq!(loaded, config("x = y", "c.json"));
    let default = DefaultConfig {
        app_path: loaded.app_path.clone().unwrap(),
        cfg_path: loaded.cfg_path.clone().unwrap(),
    };
    assert_eq!(load(&default.to_string()).unwrap(), loaded);
}

#[test]
fn later_lines_override() {
    let both = format!("{}{}", "app_path=a\ncfg_path=b\n", "cfg_path=c\n");
    assert_eq!(load(&both).unwrap(), config("a", "c"));
}

#[test]
fn base64_is_decoded() {
    assert_eq!(decode_b64(DEFAULT_APP_PATH).unwrap(), "sing-box");
    assert_eq!(decode_b64(DEFAULT_CFG_PATH).unwrap(), "config.json");
    assert!(decode_b64("!").unwrap_err().starts_with("Base64 decode error: "));
    assert!(decode_b64("/w==").unwrap_err().starts_with("UTF-8 decode error: "));
    assert_eq!(decoded_text(Err(text("bad"))).unwrap_err(), "Base64 decode error: bad");
    assert_eq!(decoded_text(Ok(b"ok".to_vec())).unwrap(), "ok");
}

#[test]
fn the_default_file_reads_back() {
    let default = DefaultConfig::new().unwrap();
    assert_eq!(default.to_string(), "app_path=sing-box\ncfg_path=config.json\n");
    assert_eq!(load(&default.to_string()).unwrap(), config("sing-box", "config.json"));
    assert_eq!(DefaultConfig::from_decoded(Err(text("a")), Err(text("b"))), Err(text("a")));
    assert_eq!(DefaultConfig::from_decoded(Ok(text("a")), Err(text("b"))), Err(text("b")));
}

#[test]
fn a_settings_file_that_exists_is_left_alone() {
    let (state, action) =
        Config::ensure_config_file(SetupState::Locating, SetupEvent::Located(Ok(true)));
    assert_eq!((&state, action), (&SetupState::Probing, SetupAction::Probe));
    assert_eq!(
        Config::ensure_config_file(state, SetupEvent::Probed(true)),
        (SetupState::Finished, SetupAction::Ready { created: false })
    );
    assert_eq!(DEFAULT_CONFIG_NAME, "rust-box.cfg");
}

#[test]
fn a_settings_file_is_created() {
    let content = text("app_path=sing-box\ncfg_path=config.json\n");
    let (state, action) =
        Config::ensure_config_file(SetupState::Probing, SetupEvent::Probed(false));
    assert_eq!(action, SetupAction::Create);
    assert_eq!(state, SetupState::Creating(content.clone()));
    let (state, action) = Config::ensure_config_file(state, SetupEvent::Created(Ok(())));
    assert_eq!(action, SetupAction::Write(content));
    assert_eq!(
        Config::ensure_config_file(state, SetupEvent::Written(Ok(()))),
        (SetupState::Finished, SetupAction::Ready { created: true })
    );
}

#[test]
fn creating_a_settings_file_can_fail() {
    let fail = |state, event| match Config::ensure_config_file(state, event) {
        (SetupState::Finished, SetupAction::Fail(message)) => message,
        other => panic!("{:?}", other),
    };
    assert_eq!(fail(SetupState::Locating, SetupEvent::Located(Ok(false))), "No exe dir");
    assert_eq!(fail(SetupState::Locating, SetupEvent::Located(Err(text("e")))), "current_exe: e");
    assert_eq!(
        fail(SetupState::Creating(text("x")), SetupEvent::Created(Err(text("e")))),
        "create file: e"
    );
    assert_eq!(fail(SetupState::Writing, SetupEvent::Written(Err(text("e")))), "write file: e");
    assert_eq!(
        plan_creation(Err(text("e"))),
        (SetupState::Finished, SetupAction::Fail(text("e")))
    );
}
