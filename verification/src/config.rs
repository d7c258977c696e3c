//! The settings file: lines `key = value` that name the application to run and the
//! configuration it is run with.

use vstd::prelude::*;
use vstd::slice::slice_subrange;
use vstd::utf8::{decode_utf8, valid_utf8};

use crate::external::{
    base64_decoded, bytes_result_view, decode_base64, decode_text, text_result_view,
    utf8_error_text,
};
use crate::text::{
    byte_lines, byte_views, find_char, join_lines, joined, option_view, position, same_text,
    split_bytes, split_text, starts_with, text_lines, trim, trimmed, views,
};

verus! {

/// The name of the settings file, which stands beside the executable.
pub const DEFAULT_CONFIG_NAME: &'static str = "rust-box.cfg";

/// The application of a new settings file, in base64.
pub const DEFAULT_APP_PATH: &'static str = "c2luZy1ib3g=";

/// The configuration of a new settings file, in base64.
pub const DEFAULT_CFG_PATH: &'static str = "Y29uZmlnLmpzb24=";

/// What reading bytes that are no UTF-8 as lines fails with.
pub const INVALID_UTF8: &'static str = "stream did not contain valid UTF-8";

/// The settings: the application to run and the configuration to run it with.
#[derive(Debug, PartialEq, Eq)]
pub struct Config<S = String> {
    pub app_path: Option<S>,
    pub cfg_path: Option<S>,
}

/// Why there are no settings.
#[derive(Debug, PartialEq, Eq)]
pub enum ConfigError<S = String> {
    /// A file operation failed, with this message.
    IoError(S),
    /// A line is not understood.
    ParseError(S),
    /// A setting is missing.
    MissingField(S),
}

impl View for Config {
    type V = Config<Seq<char>>;

    open spec fn view(&self) -> Config<Seq<char>> {
        Config { app_path: option_view(self.app_path), cfg_path: option_view(self.cfg_path) }
    }
}

impl View for ConfigError {
    type V = ConfigError<Seq<char>>;

    open spec fn view(&self) -> ConfigError<Seq<char>> {
        match self {
            ConfigError::IoError(message) => ConfigError::IoError(message@),
            ConfigError::ParseError(message) => ConfigError::ParseError(message@),
            ConfigError::MissingField(message) => ConfigError::MissingField(message@),
        }
    }
}

/// What reading a file gave.
#[derive(Debug, PartialEq, Eq)]
pub struct ReadFile<B = Vec<u8>, S = String> {
    /// The bytes that were read.
    pub content: B,
    /// The message of the error that ended the reading before the end of the file, if one
    /// did.
    pub failure: Option<S>,
}

/// What reading a file gave, in contracts.
pub type ReadFileView = ReadFile<Seq<u8>, Seq<char>>;

impl View for ReadFile {
    type V = ReadFileView;

    open spec fn view(&self) -> ReadFileView {
        ReadFile { content: self.content@, failure: option_view(self.failure) }
    }
}

/// The contents of what opening and reading a file gave, or of the message why it could not
/// be opened.
pub open spec fn file_view(file: Result<ReadFile, String>) -> Result<ReadFileView, Seq<char>> {
    match file {
        Ok(file) => Ok(file@),
        Err(message) => Err(message@),
    }
}

/// What a line says: a key with its value, nothing, or an error.
pub type Entry = Result<Option<(Seq<char>, Seq<char>)>, ConfigError<Seq<char>>>;

/// What the settings file says: the settings, or an error.
pub type Settings = Result<Config<Seq<char>>, ConfigError<Seq<char>>>;

/// The contents of a parsed line.
pub open spec fn entry_view(r: Result<Option<(String, String)>, ConfigError>) -> Entry {
    match r {
        Ok(Some((key, value))) => Ok(Some((key@, value@))),
        Ok(None) => Ok(None),
        Err(e) => Err(e@),
    }
}

/// The contents of settings that were read.
pub open spec fn settings_view(r: Result<Config, ConfigError>) -> Settings {
    match r {
        Ok(config) => Ok(config@),
        Err(e) => Err(e@),
    }
}

/// What a line says. White space around the line, the key and the value does not
/// count. An empty line and one that starts with `#` say nothing. Any other line is a
/// key and a value, both not empty, on either side of its first `=`.
pub open spec fn parsed_line(line: Seq<char>) -> Entry {
    let text = trimmed(line);
    if text.len() == 0 || text[0] == '#' {
        Ok(None)
    } else if !text.contains('=') {
        Err(ConfigError::ParseError("Line '"@ + text + "' missing separator '='"@))
    } else {
        let key = trimmed(text.take(position(text, '=') as int));
        let value = trimmed(text.skip(position(text, '=') + 1int));
        if key.len() == 0 {
            Err(ConfigError::ParseError("Empty key"@))
        } else if value.len() == 0 {
            Err(ConfigError::ParseError("Empty value for key '"@ + key + "'"@))
        } else {
            Ok(Some((key, value)))
        }
    }
}

/// What the bytes of a line say.
pub open spec fn parsed_bytes(line: Seq<u8>) -> Entry {
    if valid_utf8(line) {
        parsed_line(decode_utf8(line))
    } else {
        Err(ConfigError::IoError(INVALID_UTF8@))
    }
}

/// What the lines of a text say.
pub open spec fn text_entries(text: Seq<char>) -> Seq<Entry> {
    text_lines(text).map_values(|line: Seq<char>| parsed_line(line))
}

/// What the lines of a file say.
pub open spec fn file_entries(content: Seq<u8>) -> Seq<Entry> {
    byte_lines(content).map_values(|line: Seq<u8>| parsed_bytes(line))
}

/// Bytes without those of a last line that no line feed ends.
pub open spec fn ended_lines(content: Seq<u8>) -> Seq<u8>
    decreases content.len(),
{
    if content.len() == 0 || content.last() == 10u8 {
        content
    } else {
        ended_lines(content.drop_last())
    }
}

/// What the lines of a file say, as far as it was read. Where the reading failed, the lines
/// that had come to their end are followed by the failure.
pub open spec fn read_entries(file: ReadFileView) -> Seq<Entry> {
    match file.failure {
        None => file_entries(file.content),
        Some(message) => file_entries(ended_lines(file.content)).push(
            Err(ConfigError::IoError(message)),
        ),
    }
}

/// The first error among the lines.
pub open spec fn first_error(entries: Seq<Entry>) -> Option<ConfigError<Seq<char>>>
    decreases entries.len(),
{
    if entries.len() == 0 {
        None
    } else if first_error(entries.drop_last()) is Some {
        first_error(entries.drop_last())
    } else {
        match entries.last() {
            Ok(_) => None,
            Err(e) => Some(e),
        }
    }
}

/// The value that the last line with this key gives.
pub open spec fn last_value(entries: Seq<Entry>, key: Seq<char>) -> Option<Seq<char>>
    decreases entries.len(),
{
    if entries.len() == 0 {
        None
    } else {
        match entries.last() {
            Ok(Some((k, value))) if k == key => Some(value),
            _ => last_value(entries.drop_last(), key),
        }
    }
}

/// What is said of the lines before the first error whose key is not known.
pub open spec fn unknown_keys(entries: Seq<Entry>) -> Seq<Seq<char>>
    decreases entries.len(),
{
    if entries.len() == 0 {
        seq![]
    } else {
        let before = unknown_keys(entries.drop_last());
        match entries.last() {
            Ok(Some((key, value))) if first_error(entries) is None && key != "app_path"@ && key
                != "cfg_path"@ => before.push("Unknown config key: "@ + key + " = "@ + value),
            _ => before,
        }
    }
}

/// The settings that the lines make up: of each key the last value, or the first
/// error.
pub open spec fn settings_of(entries: Seq<Entry>) -> Settings {
    match first_error(entries) {
        Some(e) => Err(e),
        None => Ok(
            Config {
                app_path: last_value(entries, "app_path"@),
                cfg_path: last_value(entries, "cfg_path"@),
            },
        ),
    }
}

/// The setting that is missing, if one is.
pub open spec fn missing_field(config: Config<Seq<char>>) -> Option<ConfigError<Seq<char>>> {
    if config.app_path is None {
        Some(ConfigError::MissingField("app_path is required"@))
    } else if config.cfg_path is None {
        Some(ConfigError::MissingField("cfg_path is required"@))
    } else {
        None
    }
}

/// The settings if they are complete.
pub open spec fn complete(settings: Settings) -> Settings {
    match settings {
        Ok(config) => match missing_field(config) {
            Some(e) => Err(e),
            None => Ok(config),
        },
        Err(e) => Err(e),
    }
}

/// The first lines decide what the first error of all lines is.
proof fn lemma_first_error_prefix(entries: Seq<Entry>, n: int)
    requires
        0 <= n <= entries.len(),
        first_error(entries.take(n)) is Some,
    ensures
        first_error(entries) == first_error(entries.take(n)),
        unknown_keys(entries) == unknown_keys(entries.take(n)),
    decreases entries.len(),
{
    if n == entries.len() {
        assert(entries.take(n) =~= entries);
    } else {
        assert(entries.drop_last().take(n) =~= entries.take(n));
        lemma_first_error_prefix(entries.drop_last(), n);
    }
}

/// The bytes without those of a last line that no line feed ends.
fn drop_unended(content: &[u8]) -> (r: &[u8])
    ensures
        r@ == ended_lines(content@),
{
    let mut end: usize = content.len();
    assert(content@.take(end as int) =~= content@);
    while end > 0 && content[end - 1] != 10u8
        invariant
            end <= content@.len(),
            ended_lines(content@.take(end as int)) == ended_lines(content@),
        decreases end,
    {
        assert(content@.take(end as int).drop_last() =~= content@.take(end - 1));
        end = end - 1;
    }
    assert(content@.subrange(0, end as int) =~= content@.take(end as int));
    slice_subrange(content, 0, end)
}

impl Config {
    /// Settings with these values.
    pub fn new(app_path: Option<String>, cfg_path: Option<String>) -> (r: Config)
        ensures
            r@ == (Config { app_path: option_view(app_path), cfg_path: option_view(cfg_path) }),
    {
        Config { app_path, cfg_path }
    }

    /// Reads one line of the settings file.
    pub fn parse_line(line: &str) -> (r: Result<Option<(String, String)>, ConfigError>)
        ensures
            entry_view(r) == parsed_line(line@),
    {
        let text = trim(line);
        if text.is_empty() || text.get_char(0) == '#' {
            return Ok(None);
        }
        proof {
            crate::text::lemma_position(text@, '=');
        }
        match find_char(text, '=') {
            None => {
                assert(!text@.contains('='));
                Err(
                    ConfigError::ParseError(
                        "Line '".to_string().concat(text).concat("' missing separator '='"),
                    ),
                )
            },
            Some(at) => {
                assert(text@[at as int] == '=');
                let key = trim(text.substring_char(0, at));
                let len: usize = text.unicode_len();
                let value = trim(text.substring_char(at + 1, len));
                assert(text@.subrange(0, at as int) =~= text@.take(at as int));
                assert(text@.subrange(at + 1, text@.len() as int) =~= text@.skip(at + 1));
                if key.is_empty() {
                    return Err(ConfigError::ParseError("Empty key".to_string()));
                }
                if value.is_empty() {
                    return Err(
                        ConfigError::ParseError(
                            "Empty value for key '".to_string().concat(key).concat("'"),
                        ),
                    );
                }
                Ok(Some((key.to_string(), value.to_string())))
            },
        }
    }

    /// Reads the lines of the settings file. What is to be said of keys that are not
    /// known is added to `notices`.
    fn from_lines(content: &[u8], notices: &mut Vec<String>) -> (r: Result<
        Config,
        ConfigError,
    >)
        ensures
            settings_view(r) == settings_of(file_entries(content@)),
            views(final(notices)@) == views(old(notices)@) + unknown_keys(file_entries(content@)),
    {
        let mut app_path: Option<String> = None;
        let mut cfg_path: Option<String> = None;
        let lines = split_bytes(content);
        let ghost entries = file_entries(content@);
        let mut i: usize = 0;
        assert(entries.take(0) =~= seq![]);
        assert(views(notices@) =~= views(old(notices)@) + unknown_keys(entries.take(0)));
        while i < lines.len()
            invariant
                byte_views(lines@) == byte_lines(content@),
                entries == file_entries(content@),
                entries.len() == lines.len(),
                i <= lines.len(),
                first_error(entries.take(i as int)) is None,
                option_view(app_path) == last_value(entries.take(i as int), "app_path"@),
                option_view(cfg_path) == last_value(entries.take(i as int), "cfg_path"@),
                views(notices@) == views(old(notices)@) + unknown_keys(entries.take(i as int)),
            decreases lines.len() - i,
        {
            let ghost upto = entries.take(i + 1);
            proof {
                assert(upto.drop_last() =~= entries.take(i as int));
                assert(byte_views(lines@)[i as int] == lines@[i as int]@);
                assert(upto.last() == parsed_bytes(lines@[i as int]@));
            }
            let parsed = match decode_text(lines[i].clone()) {
                Ok(line) => Self::parse_line(line.as_str()),
                Err(_) => Err(ConfigError::IoError(INVALID_UTF8.to_string())),
            };
            assert(entry_view(parsed) == upto.last());
            match parsed {
                Err(e) => {
                    proof {
                        lemma_first_error_prefix(entries, i + 1);
                    }
                    return Err(e);
                },
                Ok(None) => {},
                Ok(Some((key, value))) => {
                    proof {
                        reveal_strlit("app_path");
                        reveal_strlit("cfg_path");
                        assert("app_path"@[0] != "cfg_path"@[0]);
                    }
                    if same_text(key.as_str(), "app_path") {
                        app_path = Some(value);
                    } else if same_text(key.as_str(), "cfg_path") {
                        cfg_path = Some(value);
                    } else {
                        let ghost before = notices@;
                        let notice = "Unknown config key: ".to_string().concat(
                            key.as_str(),
                        ).concat(" = ").concat(value.as_str());
                        notices.push(notice);
                        assert(views(notices@) =~= views(before).push(notice@));
                        assert(views(notices@) =~= views(old(notices)@) + unknown_keys(upto));
                    }
                },
            }
            i = i + 1;
        }
        assert(entries.take(i as int) =~= entries);
        Ok(Config::new(app_path, cfg_path))
    }

    /// Reads the settings file, as far as it could be read: the first line that is not
    /// understood, or else the failure of the reading, is the error. What is to be said of
    /// keys that are not known is added to `notices`.
    pub fn from_reader(file: ReadFile, notices: &mut Vec<String>) -> (r: Result<
        Config,
        ConfigError,
    >)
        ensures
            settings_view(r) == settings_of(read_entries(file@)),
            views(final(notices)@) == views(old(notices)@) + unknown_keys(read_entries(file@)),
    {
        match file.failure {
            None => Self::from_lines(file.content.as_slice(), notices),
            Some(message) => {
                let ended = drop_unended(file.content.as_slice());
                proof {
                    let entries = read_entries(file@);
                    assert(entries.drop_last() =~= file_entries(ended@));
                }
                match Self::from_lines(ended, notices) {
                    Ok(_) => Err(ConfigError::IoError(message)),
                    Err(e) => Err(e),
                }
            },
        }
    }

    /// Checks that no setting is missing.
    pub fn check_required(&self) -> (r: Result<(), ConfigError>)
        ensures
            match r {
                Ok(_) => missing_field(self@) is None,
                Err(e) => missing_field(self@) == Some(e@),
            },
    {
        if self.app_path.is_none() {
            return Err(ConfigError::MissingField("app_path is required".to_string()));
        }
        if self.cfg_path.is_none() {
            return Err(ConfigError::MissingField("cfg_path is required".to_string()));
        }
        Ok(())
    }

    /// Reads the settings from what reading the file at their path gave, or the message why
    /// it could not be opened. What is to be said of keys that are not known is added to
    /// `notices`.
    pub fn load_from_path(file: Result<ReadFile, String>, notices: &mut Vec<String>) -> (r: Result<
        Config,
        ConfigError,
    >)
        ensures
            settings_view(r) == loaded(file_view(file)),
            views(final(notices)@) == views(old(notices)@) + load_notices(file_view(file)),
    {
        let file = match file {
            Ok(file) => file,
            Err(message) => {
                assert(views(notices@) =~= views(old(notices)@) + seq![]);
                return Err(ConfigError::IoError(message));
            },
        };
        let config = match Self::from_reader(file, notices) {
            Ok(config) => config,
            Err(e) => {
                return Err(e);
            },
        };
        match config.check_required() {
            Ok(_) => Ok(config),
            Err(e) => Err(e),
        }
    }

    /// Reads the settings from the file that stands beside the executable, `ensured`
    /// to be there: what reading it gave, or why it is not there.
    pub fn load_or_create_default(
        ensured: Result<Result<ReadFile, String>, String>,
        notices: &mut Vec<String>,
    ) -> (r: Result<Config, ConfigError>)
        ensures
            settings_view(r) == match ensured {
                Ok(file) => loaded(file_view(file)),
                Err(message) => Err(ConfigError::IoError(message@)),
            },
            views(final(notices)@) == views(old(notices)@) + match ensured {
                Ok(file) => load_notices(file_view(file)),
                Err(_) => seq![],
            },
    {
        match ensured {
            Ok(file) => Self::load_from_path(file, notices),
            Err(message) => {
                assert(views(notices@) =~= views(old(notices)@) + seq![]);
                Err(ConfigError::IoError(message))
            },
        }
    }

    /// The settings file's content, with `new_path` as the path of the configuration:
    /// it takes the place of the first line that starts with `cfg_path=`, or is added
    /// as the last line.
    pub fn update_cfg_path(content: &str, new_path: &str) -> (r: String)
        ensures
            r@ == updated_text(content@, new_path@),
    {
        let mut lines = split_text(content);
        let setting = "cfg_path=".to_string().concat(new_path);
        let ghost original = views(lines@);
        let mut i: usize = 0;
        assert(original.skip(0) =~= original);
        while i < lines.len() && !starts_with(lines[i].as_str(), "cfg_path=")
            invariant
                i <= lines.len(),
                original == views(lines@),
                path_line(original) == i + path_line(original.skip(i as int)),
            decreases lines.len() - i,
        {
            assert(original.skip(i as int).drop_first() =~= original.skip(i + 1));
            assert(original[i as int] == lines@[i as int]@);
            i = i + 1;
        }
        if i < lines.len() {
            assert(original[i as int] == lines@[i as int]@);
            lines.set(i, setting);
            assert(views(lines@) =~= original.update(i as int, setting@));
        } else {
            lines.push(setting);
            assert(views(lines@) =~= original.push(setting@));
        }
        join_lines(&lines)
    }
}

/// The settings that reading the file gives, if they are complete.
pub open spec fn loaded(file: Result<ReadFileView, Seq<char>>) -> Settings {
    match file {
        Ok(file) => complete(settings_of(read_entries(file))),
        Err(message) => Err(ConfigError::IoError(message)),
    }
}

/// What is said of keys that are not known when the file is read.
pub open spec fn load_notices(file: Result<ReadFileView, Seq<char>>) -> Seq<Seq<char>> {
    match file {
        Ok(file) => unknown_keys(read_entries(file)),
        Err(_) => seq![],
    }
}

/// Which line is the first that starts with `cfg_path=`; the number of lines if none
/// does.
pub open spec fn path_line(lines: Seq<Seq<char>>) -> nat
    decreases lines.len(),
{
    if lines.len() == 0 || "cfg_path="@.is_prefix_of(lines[0]) {
        0
    } else {
        1 + path_line(lines.drop_first())
    }
}

/// The lines with `new_path` as the path of the configuration.
pub open spec fn updated_lines(lines: Seq<Seq<char>>, new_path: Seq<char>) -> Seq<Seq<char>> {
    if path_line(lines) < lines.len() {
        lines.update(path_line(lines) as int, "cfg_path="@ + new_path)
    } else {
        lines.push("cfg_path="@ + new_path)
    }
}

/// The text with `new_path` as the path of the configuration.
pub open spec fn updated_text(content: Seq<char>, new_path: Seq<char>) -> Seq<char> {
    joined(updated_lines(text_lines(content), new_path))
}

/// The text that decoded bytes stand for, or why there is none.
pub open spec fn text_of_decoded(decoded: Result<Seq<u8>, Seq<char>>) -> Result<
    Seq<char>,
    Seq<char>,
> {
    match decoded {
        Err(message) => Err("Base64 decode error: "@ + message),
        Ok(bytes) => if valid_utf8(bytes) {
            Ok(decode_utf8(bytes))
        } else {
            Err("UTF-8 decode error: "@ + utf8_error_text(bytes))
        },
    }
}

/// Makes a text of decoded bytes.
pub fn decoded_text(decoded: Result<Vec<u8>, String>) -> (r: Result<String, String>)
    ensures
        text_result_view(r) == text_of_decoded(bytes_result_view(decoded)),
{
    match decoded {
        Err(message) => Err("Base64 decode error: ".to_string().concat(message.as_str())),
        Ok(bytes) => match decode_text(bytes) {
            Ok(text) => Ok(text),
            Err(message) => Err("UTF-8 decode error: ".to_string().concat(message.as_str())),
        },
    }
}

/// Decodes a text from base64.
pub fn decode_b64(s: &str) -> (r: Result<String, String>)
    ensures
        text_result_view(r) == text_of_decoded(base64_decoded(s@)),
{
    decoded_text(decode_base64(s))
}

/// The settings of a new settings file.
#[derive(Debug, PartialEq, Eq)]
pub struct DefaultConfig<S = String> {
    pub app_path: S,
    pub cfg_path: S,
}

impl View for DefaultConfig {
    type V = DefaultConfig<Seq<char>>;

    open spec fn view(&self) -> DefaultConfig<Seq<char>> {
        DefaultConfig { app_path: self.app_path@, cfg_path: self.cfg_path@ }
    }
}

/// The settings of a new settings file from the two decoded texts, or the first error.
pub open spec fn default_config(
    app_path: Result<Seq<char>, Seq<char>>,
    cfg_path: Result<Seq<char>, Seq<char>>,
) -> Result<DefaultConfig<Seq<char>>, Seq<char>> {
    match (app_path, cfg_path) {
        (Err(message), _) => Err(message),
        (_, Err(message)) => Err(message),
        (Ok(app_path), Ok(cfg_path)) => Ok(DefaultConfig { app_path, cfg_path }),
    }
}

/// What the built-in texts decode to.
pub open spec fn built_in_config() -> Result<DefaultConfig<Seq<char>>, Seq<char>> {
    default_config(
        text_of_decoded(base64_decoded(DEFAULT_APP_PATH@)),
        text_of_decoded(base64_decoded(DEFAULT_CFG_PATH@)),
    )
}

/// A new settings file's content.
pub open spec fn default_text(config: DefaultConfig<Seq<char>>) -> Seq<char> {
    "app_path="@ + config.app_path + "\ncfg_path="@ + config.cfg_path + "\n"@
}

impl DefaultConfig {
    /// The settings of a new settings file, decoded from the built-in texts.
    pub fn new() -> (r: Result<DefaultConfig, String>)
        ensures
            match r {
                Ok(config) => built_in_config() == Ok::<DefaultConfig<Seq<char>>, Seq<char>>(
                    config@,
                ),
                Err(message) => built_in_config() == Err::<DefaultConfig<Seq<char>>, Seq<char>>(
                    message@,
                ),
            },
    {
        Self::from_decoded(decode_b64(DEFAULT_APP_PATH), decode_b64(DEFAULT_CFG_PATH))
    }

    /// The settings of a new settings file from the two decoded texts.
    pub fn from_decoded(app_path: Result<String, String>, cfg_path: Result<String, String>) -> (r:
        Result<DefaultConfig, String>)
        ensures
            match r {
                Ok(config) => default_config(
                    text_result_view(app_path),
                    text_result_view(cfg_path),
                ) == Ok::<DefaultConfig<Seq<char>>, Seq<char>>(config@),
                Err(message) => default_config(
                    text_result_view(app_path),
                    text_result_view(cfg_path),
                ) == Err::<DefaultConfig<Seq<char>>, Seq<char>>(message@),
            },
    {
        match (app_path, cfg_path) {
            (Err(message), _) => Err(message),
            (_, Err(message)) => Err(message),
            (Ok(app_path), Ok(cfg_path)) => Ok(DefaultConfig { app_path, cfg_path }),
        }
    }

    /// A new settings file's content.
    pub fn to_string(&self) -> (r: String)
        ensures
            r@ == default_text(self@),
    {
        "app_path=".to_string().concat(self.app_path.as_str()).concat("\ncfg_path=").concat(
            self.cfg_path.as_str(),
        ).concat("\n")
    }
}

} // verus!
