//! What holds of the settings file as a whole: what is written to it is what is read
//! from it.

use vstd::prelude::*;
use vstd::utf8::{
    decode_utf8, encode_utf8, encode_utf8_decode_utf8, encode_utf8_valid_utf8, valid_utf8,
};

use crate::config::{
    default_config, default_text, ended_lines, file_entries, first_error, last_value, load_notices, loaded,
    parsed_bytes, parsed_line, path_line, read_entries, settings_of, text_entries, text_of_decoded, unknown_keys,
    updated_lines, updated_text, Config, ConfigError, DefaultConfig, Entry, ReadFile,
    ReadFileView, Settings,
};
use crate::encoding::{lemma_decode_no_feed, lemma_encoded_lines};
use crate::text::{
    byte_lines, is_white_space, joined, lemma_position, lemma_position_is, lines_of, position,
    strip_return, text_lines, trim_end, trim_start, trimmed,
};

verus! {

/// A file that holds a text and was read to its end.
pub open spec fn whole_file(text: Seq<char>) -> ReadFileView {
    ReadFile { content: encode_utf8(text), failure: None }
}

/// What lines say.
pub open spec fn line_entries(lines: Seq<Seq<char>>) -> Seq<Entry> {
    lines.map_values(|line: Seq<char>| parsed_line(line))
}

/// Trimming at the end takes nothing off the front part when that ends in something
/// else than white space.
proof fn lemma_trim_end_concat(a: Seq<char>, b: Seq<char>)
    requires
        a.len() > 0,
        !is_white_space(a.last()),
    ensures
        trim_end(a + b) == a + trim_end(b),
    decreases b.len(),
{
    if b.len() == 0 {
        assert(a + b =~= a);
        assert(a + trim_end(b) =~= a);
    } else if is_white_space(b.last()) {
        lemma_trim_end_concat(a, b.drop_last());
        assert((a + b).drop_last() =~= a + b.drop_last());
    }
}

/// What is left of trimming at the end is a front part that is empty or ends in
/// something else than white space; what was taken off is white space.
proof fn lemma_trim_end(s: Seq<char>)
    ensures
        trim_end(s).len() <= s.len(),
        trim_end(s) == s.take(trim_end(s).len() as int),
        trim_end(s).len() > 0 ==> !is_white_space(trim_end(s).last()),
        forall|i: int| trim_end(s).len() <= i < s.len() ==> is_white_space(#[trigger] s[i]),
    decreases s.len(),
{
    if s.len() > 0 && is_white_space(s.last()) {
        lemma_trim_end(s.drop_last());
        assert(s.drop_last().take(trim_end(s).len() as int) =~= s.take(trim_end(s).len() as int));
        assert forall|i: int| trim_end(s).len() <= i < s.len() implies is_white_space(
            #[trigger] s[i],
        ) by {
            if i < s.len() - 1 {
                assert(s.drop_last()[i] == s[i]);
            }
        }
    } else {
        assert(s.take(s.len() as int) =~= s);
    }
}

/// The same at the start.
proof fn lemma_trim_start(s: Seq<char>)
    ensures
        trim_start(s).len() <= s.len(),
        trim_start(s) == s.skip(s.len() - trim_start(s).len()),
        trim_start(s).len() > 0 ==> !is_white_space(trim_start(s)[0]),
        forall|i: int| 0 <= i < s.len() - trim_start(s).len() ==> is_white_space(#[trigger] s[i]),
    decreases s.len(),
{
    if s.len() > 0 && is_white_space(s[0]) {
        lemma_trim_start(s.drop_first());
        assert(s.drop_first().skip(s.len() - 1 - trim_start(s).len()) =~= s.skip(
            s.len() - trim_start(s).len(),
        ));
        assert forall|i: int| 0 <= i < s.len() - trim_start(s).len() implies is_white_space(
            #[trigger] s[i],
        ) by {
            if i > 0 {
                assert(s.drop_first()[i - 1] == s[i]);
            }
        }
    } else {
        assert(s.skip(0) =~= s);
    }
}

/// White space added at the end is trimmed off.
proof fn lemma_trimmed_push(s: Seq<char>, w: char)
    requires
        is_white_space(w),
    ensures
        trimmed(s.push(w)) == trimmed(s),
    decreases s.len(),
{
    let t = s.push(w);
    if s.len() > 0 && is_white_space(s[0]) {
        lemma_trimmed_push(s.drop_first(), w);
        assert(t.drop_first() =~= s.drop_first().push(w));
    } else if s.len() == 0 {
        assert(t.drop_first() =~= seq![]);
        assert(trim_start(t.drop_first()) =~= seq![]);
        assert(trim_start(s) =~= seq![]);
    } else {
        assert(trim_start(t) == t);
        assert(t.drop_last() =~= s);
    }
}

/// White space at the end does not matter to trimming.
proof fn lemma_trimmed_trim_end(s: Seq<char>)
    ensures
        trimmed(trim_end(s)) == trimmed(s),
    decreases s.len(),
{
    if s.len() > 0 && is_white_space(s.last()) {
        lemma_trimmed_trim_end(s.drop_last());
        assert(s =~= s.drop_last().push(s.last()));
        lemma_trimmed_push(s.drop_last(), s.last());
    }
}

/// What is trimmed stays as it is when it is trimmed again.
pub proof fn law_trimmed_is_trimmed(s: Seq<char>)
    ensures
        trimmed(trimmed(s)) == trimmed(s),
{
    let t = trim_start(s);
    let u = trim_end(t);
    lemma_trim_start(s);
    lemma_trim_end(t);
    if u.len() > 0 {
        assert(u[0] == t[0]);
        assert(trim_start(u) == u);
        assert(trim_end(u) == u);
    }
}

/// A carriage return at the end of a line does not matter to what it says.
proof fn lemma_parsed_strip(line: Seq<char>)
    ensures
        parsed_line(strip_return(line, '\r')) == parsed_line(line),
{
    if line.len() > 0 && line.last() == '\r' {
        lemma_trimmed_push(line.drop_last(), '\r');
        assert(line =~= line.drop_last().push('\r'));
    }
}

/// An empty line says nothing.
proof fn lemma_parsed_empty()
    ensures
        parsed_line(seq![]) == Entry::Ok(None),
{
    assert(trim_start(Seq::<char>::empty()) =~= seq![]);
    assert(trim_end(Seq::<char>::empty()) =~= seq![]);
}

/// A key that stands for itself on a line: not empty, no `=` in it, no comment, no
/// white space around it.
pub open spec fn plain_key(key: Seq<char>) -> bool {
    &&& key.len() > 0
    &&& !key.contains('=')
    &&& key[0] != '#'
    &&& !is_white_space(key[0])
    &&& !is_white_space(key.last())
}

/// Reading a line undoes writing it: a line `key=value` says just that, with the value
/// trimmed, unless that is empty.
pub proof fn law_written_line_reads_back(key: Seq<char>, value: Seq<char>)
    requires
        plain_key(key),
    ensures
        parsed_line(key + seq!['='] + value) == if trimmed(value).len() > 0 {
            Entry::Ok(Some((key, trimmed(value))))
        } else {
            Entry::Err(ConfigError::ParseError("Empty value for key '"@ + key + "'"@))
        },
{
    let front = key + seq!['='];
    let line = front + value;
    assert(trim_start(line) == line);
    lemma_trim_end_concat(front, value);
    let text = trimmed(line);
    assert(text == front + trim_end(value));
    assert forall|i: int| 0 <= i < key.len() implies #[trigger] text[i] != '=' by {
        assert(text[i] == key[i]);
        assert(key.contains(key[i]));
    }
    assert(text[key.len() as int] == '=');
    assert(text.contains('='));
    lemma_position_is(text, '=', key.len() as int);
    assert(text.take(key.len() as int) =~= key);
    assert(text.skip(key.len() + 1int) =~= trim_end(value));
    lemma_trimmed_trim_end(value);
    assert(trim_start(key) == key);
    assert(trim_end(key) == key);
}

/// The two known keys are such keys, and differ.
proof fn lemma_known_keys()
    ensures
        plain_key("app_path"@),
        plain_key("cfg_path"@),
        "app_path"@ != "cfg_path"@,
        "app_path="@ == "app_path"@ + seq!['='],
        "cfg_path="@ == "cfg_path"@ + seq!['='],
        !"app_path="@.contains('\n'),
        !"cfg_path="@.contains('\n'),
{
    reveal_strlit("app_path");
    reveal_strlit("cfg_path");
    reveal_strlit("app_path=");
    reveal_strlit("cfg_path=");
    assert("app_path"@[0] != "cfg_path"@[0]);
    assert("app_path="@ =~= "app_path"@ + seq!['=']);
    assert("cfg_path="@ =~= "cfg_path"@ + seq!['=']);
}

/// The first error of two groups of lines.
proof fn lemma_first_error_concat(a: Seq<Entry>, b: Seq<Entry>)
    ensures
        first_error(a + b) == if first_error(a) is Some {
            first_error(a)
        } else {
            first_error(b)
        },
    decreases b.len(),
{
    if b.len() == 0 {
        assert(a + b =~= a);
    } else {
        lemma_first_error_concat(a, b.drop_last());
        assert((a + b).drop_last() =~= a + b.drop_last());
    }
}

/// The last value in two groups of lines.
proof fn lemma_last_value_concat(a: Seq<Entry>, b: Seq<Entry>, key: Seq<char>)
    ensures
        last_value(a + b, key) == if last_value(b, key) is Some {
            last_value(b, key)
        } else {
            last_value(a, key)
        },
    decreases b.len(),
{
    if b.len() == 0 {
        assert(a + b =~= a);
    } else {
        lemma_last_value_concat(a, b.drop_last(), key);
        assert((a + b).drop_last() =~= a + b.drop_last());
    }
}

/// What one line adds.
proof fn lemma_one_entry(entry: Entry)
    ensures
        first_error(seq![entry]) == match entry {
            Ok(_) => None,
            Err(e) => Some(e),
        },
        forall|key: Seq<char>| #[trigger]
            last_value(seq![entry], key) == match entry {
                Ok(Some((k, value))) if k == key => Some(value),
                _ => None,
            },
{
    let one = seq![entry];
    assert(one.drop_last() =~= seq![]);
    assert(first_error(one.drop_last()) is None);
    assert forall|key: Seq<char>| #[trigger]
        last_value(one, key) == match entry {
            Ok(Some((k, value))) if k == key => Some(value),
            _ => None,
        } by {
        assert(last_value(one.drop_last(), key) is None);
    }
}

/// A file that was not read to its end gives no settings: the error is the first among the
/// lines that had come to their end, or else the failure of the reading.
pub proof fn law_failed_read_gives_no_settings(file: ReadFileView)
    requires
        file.failure is Some,
    ensures
        loaded(Ok(file)) == Settings::Err(
            match first_error(file_entries(ended_lines(file.content))) {
                Some(e) => e,
                None => ConfigError::IoError(file.failure->0),
            },
        ),
        load_notices(Ok(file)) == unknown_keys(file_entries(ended_lines(file.content))),
{
    assert(read_entries(file).drop_last() =~= file_entries(ended_lines(file.content)));
}

/// Lines whose key is not known do not matter to the settings wherever they stand.
pub proof fn law_unknown_keys_do_not_matter(
    before: Seq<Entry>,
    key: Seq<char>,
    value: Seq<char>,
    after: Seq<Entry>,
)
    requires
        key != "app_path"@,
        key != "cfg_path"@,
    ensures
        settings_of(before + seq![Entry::Ok(Some((key, value)))] + after) == settings_of(
            before + after,
        ),
{
    let unknown: Seq<Entry> = seq![Ok(Some((key, value)))];
    lemma_one_entry(unknown[0]);
    lemma_first_error_concat(before, unknown);
    lemma_first_error_concat(before + unknown, after);
    lemma_first_error_concat(before, after);
    lemma_settings_values(before, unknown, after, "app_path"@);
    lemma_settings_values(before, unknown, after, "cfg_path"@);
}

/// Lines that say nothing, such as empty lines and comments, do not matter wherever
/// they stand.
pub proof fn law_comments_do_not_matter(before: Seq<Entry>, after: Seq<Entry>)
    ensures
        settings_of(before + seq![Ok(None)] + after) == settings_of(before + after),
{
    let nothing: Seq<Entry> = seq![Ok(None)];
    lemma_one_entry(Ok(None));
    lemma_first_error_concat(before, nothing);
    lemma_first_error_concat(before + nothing, after);
    lemma_first_error_concat(before, after);
    lemma_settings_values(before, nothing, after, "app_path"@);
    lemma_settings_values(before, nothing, after, "cfg_path"@);
}

/// Lines that have no value for a key do not matter to its last value.
proof fn lemma_settings_values(
    before: Seq<Entry>,
    nothing: Seq<Entry>,
    after: Seq<Entry>,
    key: Seq<char>,
)
    requires
        last_value(nothing, key) is None,
    ensures
        last_value(before + nothing + after, key) == last_value(before + after, key),
{
    lemma_last_value_concat(before, nothing, key);
    lemma_last_value_concat(before + nothing, after, key);
    lemma_last_value_concat(before, after, key);
}

/// A file that holds a text says what the text's lines say.
pub proof fn law_file_says_what_its_text_says(text: Seq<char>)
    ensures
        file_entries(encode_utf8(text)) == text_entries(text),
{
    lemma_encoded_lines(text);
    let bytes = byte_lines(encode_utf8(text));
    let lines = text_lines(text);
    assert(file_entries(encode_utf8(text)).len() == text_entries(text).len());
    assert forall|i: int| 0 <= i < lines.len() implies #[trigger] file_entries(
        encode_utf8(text),
    )[i] == text_entries(text)[i] by {
        assert(bytes[i] == encode_utf8(lines[i]));
        encode_utf8_valid_utf8(lines[i]);
        encode_utf8_decode_utf8(lines[i]);
    }
    assert(file_entries(encode_utf8(text)) =~= text_entries(text));
}

/// The lines of a text that starts with a line and a line feed.
proof fn lemma_lines_cons(line: Seq<char>, rest: Seq<char>)
    requires
        !line.contains('\n'),
    ensures
        text_lines(line + seq!['\n'] + rest) == seq![strip_return(line, '\r')] + text_lines(rest),
{
    let text = line + seq!['\n'] + rest;
    assert forall|i: int| 0 <= i < line.len() implies #[trigger] text[i] != '\n' by {
        assert(text[i] == line[i]);
        assert(line.contains(line[i]));
    }
    assert(text[line.len() as int] == '\n');
    lemma_position_is(text, '\n', line.len() as int);
    assert(text.take(line.len() as int) =~= line);
    assert(text.skip(line.len() + 1int) =~= rest);
}

/// Lines that are put together and read again give the same settings.
proof fn lemma_joined_entries(lines: Seq<Seq<char>>)
    requires
        forall|i: int| 0 <= i < lines.len() ==> !(#[trigger] lines[i]).contains('\n'),
    ensures
        first_error(text_entries(joined(lines))) == first_error(line_entries(lines)),
        forall|key: Seq<char>| #[trigger]
            last_value(text_entries(joined(lines)), key) == last_value(line_entries(lines), key),
    decreases lines.len(),
{
    let text = joined(lines);
    if lines.len() == 0 {
        assert(text_entries(text) =~= seq![]);
        assert(line_entries(lines) =~= seq![]);
    } else if lines.len() == 1 {
        let line = lines[0];
        assert(line_entries(lines) =~= seq![parsed_line(line)]);
        lemma_position(line, '\n');
        lemma_one_entry(parsed_line(line));
        if line.len() == 0 {
            assert(line =~= seq![]);
            lemma_parsed_empty();
            assert(text_entries(text) =~= seq![]);
        } else {
            assert(position(line, '\n') == line.len()) by {
                if position(line, '\n') < line.len() {
                    assert(line.contains(line[position(line, '\n') as int]));
                }
            }
            assert(text_entries(text) =~= seq![parsed_line(line)]);
        }
    } else {
        let line = lines[0];
        let rest = lines.drop_first();
        assert forall|i: int| 0 <= i < rest.len() implies !(#[trigger] rest[i]).contains('\n') by {
            assert(rest[i] == lines[i + 1]);
        }
        lemma_joined_entries(rest);
        lemma_lines_cons(line, joined(rest));
        lemma_parsed_strip(line);
        let head: Seq<Entry> = seq![parsed_line(line)];
        assert(text_entries(text) =~= head + text_entries(joined(rest)));
        assert(line_entries(lines) =~= head + line_entries(rest));
        lemma_first_error_concat(head, text_entries(joined(rest)));
        lemma_first_error_concat(head, line_entries(rest));
        assert forall|key: Seq<char>| #[trigger]
            last_value(text_entries(text), key) == last_value(line_entries(lines), key) by {
            lemma_last_value_concat(head, text_entries(joined(rest)), key);
            lemma_last_value_concat(head, line_entries(rest), key);
            assert(last_value(text_entries(joined(rest)), key) == last_value(
                line_entries(rest),
                key,
            ));
        }
    }
}

/// A new settings file, read again, gives the settings that it was written with.
pub proof fn law_default_file_reads_back(config: DefaultConfig<Seq<char>>)
    requires
        !config.app_path.contains('\n'),
        !config.cfg_path.contains('\n'),
        trimmed(config.app_path).len() > 0,
        trimmed(config.cfg_path).len() > 0,
    ensures
        loaded(Ok(whole_file(default_text(config)))) == Settings::Ok(
            Config {
                app_path: Some(trimmed(config.app_path)),
                cfg_path: Some(trimmed(config.cfg_path)),
            },
        ),
{
    let text = default_text(config);
    let first = "app_path="@ + config.app_path;
    let second = "cfg_path="@ + config.cfg_path;
    lemma_known_keys();
    reveal_strlit("\n");
    reveal_strlit("\ncfg_path=");
    reveal_strlit("cfg_path=");
    assert("\ncfg_path="@ =~= seq!['\n'] + "cfg_path="@);
    assert("\n"@ =~= seq!['\n']);
    let nothing: Seq<char> = seq![];
    assert(text =~= first + seq!['\n'] + (second + seq!['\n'] + nothing));
    lemma_no_feed_concat("app_path="@, config.app_path);
    lemma_no_feed_concat("cfg_path="@, config.cfg_path);
    lemma_lines_cons(first, second + seq!['\n'] + nothing);
    lemma_lines_cons(second, nothing);
    assert(text_lines(nothing) =~= seq![]);
    lemma_parsed_strip(first);
    lemma_parsed_strip(second);
    law_written_line_reads_back("app_path"@, config.app_path);
    law_written_line_reads_back("cfg_path"@, config.cfg_path);
    let a: Seq<Entry> = seq![parsed_line(first)];
    let b: Seq<Entry> = seq![parsed_line(second)];
    assert(text_entries(text) =~= a + b);
    lemma_one_entry(parsed_line(first));
    lemma_one_entry(parsed_line(second));
    lemma_first_error_concat(a, b);
    lemma_last_value_concat(a, b, "app_path"@);
    lemma_last_value_concat(a, b, "cfg_path"@);
    law_file_says_what_its_text_says(text);
}

/// Two texts without the line feed make up a text without it.
proof fn lemma_no_feed_concat(a: Seq<char>, b: Seq<char>)
    requires
        !a.contains('\n'),
        !b.contains('\n'),
    ensures
        !(a + b).contains('\n'),
{
    assert forall|i: int| 0 <= i < (a + b).len() implies (a + b)[i] != '\n' by {
        if i < a.len() {
            assert(a.contains(a[i]));
        } else {
            assert(b.contains(b[i - a.len()]));
        }
    }
}

/// There is no error where every line is understood.
proof fn lemma_no_error(entries: Seq<Entry>)
    requires
        forall|i: int| 0 <= i < entries.len() ==> (#[trigger] entries[i]) is Ok,
    ensures
        first_error(entries) is None,
    decreases entries.len(),
{
    if entries.len() > 0 {
        lemma_no_error(entries.drop_last());
        assert(entries[entries.len() - 1] is Ok);
    }
}

/// No line holds what ends lines.
proof fn lemma_lines_no_feed<T>(s: Seq<T>, nl: T, cr: T)
    ensures
        forall|i: int|
            0 <= i < lines_of(s, nl, cr).len() ==> !(#[trigger] lines_of(s, nl, cr)[i]).contains(
                nl,
            ),
    decreases s.len(),
{
    if s.len() > 0 {
        lemma_position(s, nl);
        let p = position(s, nl) as int;
        let lines = lines_of(s, nl, cr);
        if p < s.len() {
            let rest = s.skip(p + 1);
            lemma_lines_no_feed(rest, nl, cr);
            assert forall|i: int| 0 <= i < lines.len() implies !(#[trigger] lines[i]).contains(
                nl,
            ) by {
                if i == 0 {
                    assert(lines[0] == strip_return(s.take(p), cr));
                } else {
                    assert(lines[i] == lines_of(rest, nl, cr)[i - 1]);
                }
            }
        }
    }
}

/// Where the first line that starts with `cfg_path=` stands.
proof fn lemma_path_line(lines: Seq<Seq<char>>)
    ensures
        path_line(lines) <= lines.len(),
        path_line(lines) < lines.len() ==> "cfg_path="@.is_prefix_of(
            lines[path_line(lines) as int],
        ),
        forall|i: int|
            0 <= i < path_line(lines) ==> !"cfg_path="@.is_prefix_of(#[trigger] lines[i]),
    decreases lines.len(),
{
    if lines.len() > 0 && !"cfg_path="@.is_prefix_of(lines[0]) {
        let rest = lines.drop_first();
        lemma_path_line(rest);
        assert forall|i: int| 0 <= i < path_line(lines) implies !"cfg_path="@.is_prefix_of(
            #[trigger] lines[i],
        ) by {
            if i > 0 {
                assert(rest[i - 1] == lines[i]);
            }
        }
    }
}

/// A line that starts with `cfg_path=` and has none such before it is the first.
proof fn lemma_path_line_is(lines: Seq<Seq<char>>, at: int)
    requires
        0 <= at < lines.len(),
        "cfg_path="@.is_prefix_of(lines[at]),
        forall|i: int| 0 <= i < at ==> !"cfg_path="@.is_prefix_of(#[trigger] lines[i]),
    ensures
        path_line(lines) == at,
{
    lemma_path_line(lines);
    if path_line(lines) < at {
        assert(!"cfg_path="@.is_prefix_of(lines[path_line(lines) as int]));
    }
}

/// The path of the configuration that the lines after the first one that starts with
/// `cfg_path=` give, if any of them gives one.
pub open spec fn path_after(lines: Seq<Seq<char>>) -> Option<Seq<char>> {
    if path_line(lines) < lines.len() {
        last_value(line_entries(lines).skip(path_line(lines) + 1int), "cfg_path"@)
    } else {
        None
    }
}

/// The same of a text.
pub open spec fn later_path(content: Seq<char>) -> Option<Seq<char>> {
    path_after(text_lines(content))
}

/// A carriage return at the end of a line does not matter to whether it starts with
/// `cfg_path=`.
proof fn lemma_prefix_strip(line: Seq<char>)
    ensures
        "cfg_path="@.is_prefix_of(strip_return(line, '\r')) == "cfg_path="@.is_prefix_of(line),
{
    reveal_strlit("cfg_path=");
    let stripped = strip_return(line, '\r');
    let n = "cfg_path="@.len() as int;
    if "cfg_path="@.is_prefix_of(line) {
        assert("cfg_path="@[n - 1] == line[n - 1]);
        assert(stripped.len() >= n);
        assert(stripped.take(n) =~= line.take(n));
        assert("cfg_path="@ =~= stripped.take(n));
    }
    if "cfg_path="@.is_prefix_of(stripped) {
        assert("cfg_path="@ =~= line.take(n));
    }
}

/// The first line does not matter to the path after a later one.
proof fn lemma_path_after_cons(line: Seq<char>, rest: Seq<Seq<char>>)
    ensures
        path_after(seq![line] + rest) == if "cfg_path="@.is_prefix_of(line) {
            last_value(line_entries(rest), "cfg_path"@)
        } else {
            path_after(rest)
        },
{
    let lines = seq![line] + rest;
    assert(lines.drop_first() =~= rest);
    if "cfg_path="@.is_prefix_of(line) {
        assert(line_entries(lines).skip(1) =~= line_entries(rest));
    } else {
        lemma_path_line(rest);
        let at = path_line(rest) as int;
        if at < rest.len() {
            assert(line_entries(lines).skip(at + 2) =~= line_entries(rest).skip(at + 1));
        }
    }
}

/// Lines that are put together and read again give the same path after the first one that
/// starts with `cfg_path=`.
proof fn lemma_joined_path_after(lines: Seq<Seq<char>>)
    requires
        forall|i: int| 0 <= i < lines.len() ==> !(#[trigger] lines[i]).contains('\n'),
    ensures
        later_path(joined(lines)) == path_after(lines),
    decreases lines.len(),
{
    let text = joined(lines);
    reveal_strlit("cfg_path=");
    if lines.len() == 0 {
        assert(text_lines(text) =~= lines);
    } else if lines.len() == 1 {
        let line = lines[0];
        let none: Seq<Seq<char>> = seq![];
        assert(lines =~= seq![line] + none);
        assert(line_entries(none) =~= seq![]);
        lemma_path_after_cons(line, none);
        lemma_position(line, '\n');
        if line.len() == 0 {
            assert(text_lines(text) =~= none);
        } else {
            if position(line, '\n') < line.len() {
                assert(line.contains(line[position(line, '\n') as int]));
            }
            assert(text_lines(text) =~= lines);
        }
    } else {
        let line = lines[0];
        let rest = lines.drop_first();
        assert(lines =~= seq![line] + rest);
        assert forall|i: int| 0 <= i < rest.len() implies !(#[trigger] rest[i]).contains('\n') by {
            assert(rest[i] == lines[i + 1]);
        }
        lemma_joined_path_after(rest);
        lemma_joined_entries(rest);
        lemma_lines_cons(line, joined(rest));
        lemma_prefix_strip(line);
        lemma_path_after_cons(line, rest);
        lemma_path_after_cons(strip_return(line, '\r'), text_lines(joined(rest)));
        assert(line_entries(text_lines(joined(rest))) == text_entries(joined(rest)));
    }
}

/// The path that an update puts in does not matter to the path after it.
proof fn lemma_updated_path_after(lines: Seq<Seq<char>>, new_path: Seq<char>)
    ensures
        path_after(updated_lines(lines, new_path)) == path_after(lines),
    decreases lines.len(),
{
    let updated = updated_lines(lines, new_path);
    let setting = "cfg_path="@ + new_path;
    assert("cfg_path="@ =~= setting.take("cfg_path="@.len() as int));
    let none: Seq<Seq<char>> = seq![];
    if lines.len() == 0 {
        assert(updated =~= seq![setting] + none);
        lemma_path_after_cons(setting, none);
        assert(line_entries(none) =~= seq![]);
    } else {
        let rest = lines.drop_first();
        assert(lines =~= seq![lines[0]] + rest);
        lemma_path_after_cons(lines[0], rest);
        if "cfg_path="@.is_prefix_of(lines[0]) {
            assert(updated =~= seq![setting] + rest);
            lemma_path_after_cons(setting, rest);
        } else {
            lemma_path_line(rest);
            assert(updated =~= seq![lines[0]] + updated_lines(rest, new_path));
            lemma_path_after_cons(lines[0], updated_lines(rest, new_path));
            lemma_updated_path_after(rest, new_path);
        }
    }
}

/// After the path of the configuration was changed, the settings file gives the new
/// path, and the same application as before. It does so where every line but the
/// changed one is understood, and where no line after that one gives another path: the
/// first line that starts with `cfg_path=` is changed, while the last value counts.
pub proof fn law_updated_path_reads_back(content: Seq<char>, new_path: Seq<char>)
    requires
        !new_path.contains('\n'),
        trimmed(new_path).len() > 0,
        forall|i: int|
            0 <= i < text_lines(content).len() && i != path_line(text_lines(content)) ==> (
            #[trigger] text_entries(content)[i]) is Ok,
        later_path(content) is None || later_path(content) == Some(trimmed(new_path)),
    ensures
        settings_of(file_entries(encode_utf8(updated_text(content, new_path)))) == Settings::Ok(
            Config {
                app_path: last_value(text_entries(content), "app_path"@),
                cfg_path: Some(trimmed(new_path)),
            },
        ),
{
    let lines = text_lines(content);
    let entries = text_entries(content);
    let at = path_line(lines) as int;
    let setting = "cfg_path="@ + new_path;
    let updated = updated_lines(lines, new_path);
    lemma_known_keys();
    lemma_path_line(lines);
    lemma_lines_no_feed(content, '\n', '\r');
    lemma_no_feed_concat("cfg_path="@, new_path);
    law_written_line_reads_back("cfg_path"@, new_path);
    let front: Seq<Entry> = entries.take(at);
    let one: Seq<Entry> = seq![parsed_line(setting)];
    let back: Seq<Entry> = if at < lines.len() {
        entries.skip(at + 1)
    } else {
        seq![]
    };
    assert forall|i: int| 0 <= i < updated.len() implies !(#[trigger] updated[i]).contains(
        '\n',
    ) by {
        if i != at {
            assert(updated[i] == lines[i]);
        }
    }
    law_file_says_what_its_text_says(updated_text(content, new_path));
    lemma_joined_entries(updated);
    assert(line_entries(updated) =~= front + one + back);
    assert forall|i: int| 0 <= i < line_entries(updated).len() implies (#[trigger] line_entries(
        updated,
    )[i]) is Ok by {
        if i != at {
            assert(line_entries(updated)[i] == entries[i]);
        }
    }
    lemma_no_error(line_entries(updated));
    lemma_one_entry(parsed_line(setting));
    assert(entries.skip(at + 1) =~= back || at >= lines.len());
    if at >= lines.len() {
        assert(front =~= entries);
        assert(front + one + back =~= front + one);
        lemma_last_value_concat(front, one, "app_path"@);
        lemma_last_value_concat(front, one, "cfg_path"@);
    } else {
        let old_line = lines[at];
        let old_value = old_line.skip("cfg_path="@.len() as int);
        assert(old_line =~= "cfg_path"@ + seq!['='] + old_value);
        law_written_line_reads_back("cfg_path"@, old_value);
        let old_one: Seq<Entry> = seq![parsed_line(old_line)];
        lemma_one_entry(parsed_line(old_line));
        assert(entries =~= front + old_one + back);
        lemma_settings_values(front, one, back, "app_path"@);
        lemma_settings_values(front, old_one, back, "app_path"@);
        lemma_last_value_concat(front + one, back, "cfg_path"@);
        lemma_last_value_concat(front, one, "cfg_path"@);
    }
}

/// Every line is understood where there is no error.
proof fn lemma_all_understood(entries: Seq<Entry>)
    requires
        first_error(entries) is None,
    ensures
        forall|i: int| 0 <= i < entries.len() ==> (#[trigger] entries[i]) is Ok,
    decreases entries.len(),
{
    if entries.len() > 0 {
        let front = entries.drop_last();
        lemma_all_understood(front);
        assert forall|i: int| 0 <= i < entries.len() implies (#[trigger] entries[i]) is Ok by {
            if i < front.len() {
                assert(entries[i] == front[i]);
            }
        }
    }
}

/// When the path of the configuration is changed twice, the settings file gives the second
/// one, and the same application as before. It does so where the settings file would give
/// each of them after one change.
pub proof fn law_last_update_wins(content: Seq<char>, first: Seq<char>, second: Seq<char>)
    requires
        !first.contains('\n') && !second.contains('\n'),
        trimmed(first).len() > 0 && trimmed(second).len() > 0,
        forall|i: int|
            0 <= i < text_lines(content).len() && i != path_line(text_lines(content)) ==> (
            #[trigger] text_entries(content)[i]) is Ok,
        later_path(content) is None || (later_path(content) == Some(trimmed(first))
            && later_path(content) == Some(trimmed(second))),
    ensures
        settings_of(
            file_entries(encode_utf8(updated_text(updated_text(content, first), second))),
        ) == Settings::Ok(
            Config {
                app_path: last_value(text_entries(content), "app_path"@),
                cfg_path: Some(trimmed(second)),
            },
        ),
{
    let lines = text_lines(content);
    let updated = updated_lines(lines, first);
    let between = updated_text(content, first);
    law_updated_path_reads_back(content, first);
    law_file_says_what_its_text_says(between);
    lemma_all_understood(text_entries(between));
    lemma_path_line(lines);
    lemma_lines_no_feed(content, '\n', '\r');
    lemma_known_keys();
    lemma_no_feed_concat("cfg_path="@, first);
    assert forall|i: int| 0 <= i < updated.len() implies !(#[trigger] updated[i]).contains(
        '\n',
    ) by {
        if i != path_line(lines) {
            assert(updated[i] == lines[i]);
        }
    }
    lemma_joined_path_after(updated);
    lemma_updated_path_after(lines, first);
    law_updated_path_reads_back(between, second);
}

/// Lines that are put together and split again: all but the last lose a carriage return at
/// their end, and the last is still there if it is not empty.
proof fn lemma_lines_joined(lines: Seq<Seq<char>>)
    requires
        lines.len() > 0,
        lines.last().len() > 0,
        forall|i: int| 0 <= i < lines.len() ==> !(#[trigger] lines[i]).contains('\n'),
    ensures
        text_lines(joined(lines)).len() == lines.len(),
        forall|i: int|
            0 <= i < lines.len() ==> #[trigger] text_lines(joined(lines))[i] == if i + 1
                < lines.len() {
                strip_return(lines[i], '\r')
            } else {
                lines[i]
            },
    decreases lines.len(),
{
    let line = lines[0];
    if lines.len() == 1 {
        lemma_position(line, '\n');
        if position(line, '\n') < line.len() {
            assert(line.contains(line[position(line, '\n') as int]));
        }
        assert(text_lines(joined(lines)) =~= lines);
    } else {
        let rest = lines.drop_first();
        assert forall|i: int| 0 <= i < rest.len() implies !(#[trigger] rest[i]).contains('\n') by {
            assert(rest[i] == lines[i + 1]);
        }
        lemma_lines_joined(rest);
        lemma_lines_cons(line, joined(rest));
        assert forall|i: int| 0 <= i < lines.len() implies #[trigger] text_lines(joined(lines))[i]
            == if i + 1 < lines.len() {
            strip_return(lines[i], '\r')
        } else {
            lines[i]
        } by {
            if i > 0 {
                assert(text_lines(joined(lines))[i] == text_lines(joined(rest))[i - 1]);
                assert(rest[i - 1] == lines[i]);
            }
        }
    }
}

/// The lines of a text stay as they are when it is written and read again, but for the one
/// with the path of the configuration: the last is not empty, and none before it ends in a
/// carriage return.
pub open spec fn lines_stay(content: Seq<char>) -> bool {
    let lines = text_lines(content);
    let at = path_line(lines) as int;
    &&& at + 1 < lines.len() ==> lines.last().len() > 0
    &&& forall|i: int|
        0 <= i < lines.len() && i != at && (i + 1 < lines.len() || at == lines.len()) ==> strip_return(
            #[trigger] lines[i],
            '\r',
        ) == lines[i]
}

/// When the path of the configuration is changed twice, the settings file holds the same
/// text as if only the second change had been made. It does so where the other lines stay
/// as they are when they are written and read again.
pub proof fn law_last_update_is_the_only_one(
    content: Seq<char>,
    first: Seq<char>,
    second: Seq<char>,
)
    requires
        !first.contains('\n'),
        lines_stay(content),
    ensures
        updated_text(updated_text(content, first), second) == updated_text(content, second),
{
    let lines = text_lines(content);
    let at = path_line(lines) as int;
    let setting = "cfg_path="@ + first;
    let updated = updated_lines(lines, first);
    let again = text_lines(joined(updated));
    lemma_known_keys();
    lemma_path_line(lines);
    lemma_lines_no_feed(content, '\n', '\r');
    lemma_no_feed_concat("cfg_path="@, first);
    assert forall|i: int| 0 <= i < updated.len() implies !(#[trigger] updated[i]).contains(
        '\n',
    ) by {
        if i != at {
            assert(updated[i] == lines[i]);
        }
    }
    lemma_lines_joined(updated);
    assert forall|i: int| 0 <= i < updated.len() && i != at implies #[trigger] again[i]
        == lines[i] by {
        assert(updated[i] == lines[i]);
    }
    assert("cfg_path="@ =~= setting.take("cfg_path="@.len() as int));
    lemma_prefix_strip(setting);
    assert("cfg_path="@.is_prefix_of(again[at])) by {
        assert(updated[at] == setting);
    }
    assert forall|i: int| 0 <= i < at implies !"cfg_path="@.is_prefix_of(#[trigger] again[i]) by {
        assert(again[i] == lines[i]);
    }
    lemma_path_line_is(again, at);
    assert(updated_lines(again, second) =~= updated_lines(lines, second));
}

/// The same in plain words of a text: it holds no carriage return, and it does not end in
/// two line feeds.
pub proof fn law_last_update_is_the_only_one_in_plain_text(
    content: Seq<char>,
    first: Seq<char>,
    second: Seq<char>,
)
    requires
        !content.contains('\r'),
        !first.contains('\n'),
        !seq!['\n', '\n'].is_suffix_of(content),
    ensures
        updated_text(updated_text(content, first), second) == updated_text(content, second),
{
    lemma_plain_lines(content);
    lemma_path_line(text_lines(content));
    law_last_update_is_the_only_one(content, first, second);
}

/// In a text without a carriage return no line ends in one, and the last of several lines
/// is empty only if the text ends in two line feeds.
proof fn lemma_plain_lines(text: Seq<char>)
    requires
        !text.contains('\r'),
    ensures
        forall|i: int|
            0 <= i < text_lines(text).len() ==> strip_return(#[trigger] text_lines(text)[i], '\r')
                == text_lines(text)[i],
        text_lines(text).len() > 0 && text_lines(text).last().len() == 0 ==> text == seq!['\n']
            || seq!['\n', '\n'].is_suffix_of(text),
        text == seq!['\n'] ==> text_lines(text).len() == 1,
    decreases text.len(),
{
    if text.len() > 0 {
        lemma_position(text, '\n');
        let p = position(text, '\n') as int;
        let lines = text_lines(text);
        if p >= text.len() {
            assert(lines =~= seq![text]);
            assert(text[text.len() - 1] != '\r');
        } else {
            let line = text.take(p);
            let rest = text.skip(p + 1);
            assert(!rest.contains('\r')) by {
                assert forall|i: int| 0 <= i < rest.len() implies rest[i] != '\r' by {
                    assert(rest[i] == text[p + 1 + i]);
                }
            }
            lemma_plain_lines(rest);
            assert(line.len() > 0 ==> line.last() == text[p - 1]);
            assert(strip_return(line, '\r') == line);
            assert forall|i: int| 0 <= i < lines.len() implies strip_return(
                #[trigger] lines[i],
                '\r',
            ) == lines[i] by {
                if i > 0 {
                    assert(lines[i] == text_lines(rest)[i - 1]);
                }
            }
            if rest.len() == 0 {
                assert(lines =~= seq![line]);
                if line.len() == 0 {
                    assert(text =~= seq!['\n']);
                }
            } else {
                assert(lines.last() == text_lines(rest).last());
                if lines.last().len() == 0 {
                    let n = text.len() as int;
                    if rest == seq!['\n'] {
                        assert(text[n - 1] == rest[0] && text[n - 2] == '\n');
                    } else {
                        let tail = rest.skip(rest.len() - 2);
                        assert(tail[0] == text[n - 2] && tail[1] == text[n - 1]);
                    }
                    assert(text.skip(n - 2) =~= seq!['\n', '\n']);
                }
            }
        }
    }
}

/// Lines that are understood, put after others, override them: of each setting they give the
/// value if they give any.
pub proof fn law_later_lines_override(before: Seq<Entry>, after: Seq<Entry>)
    requires
        settings_of(before) is Ok,
        settings_of(after) is Ok,
    ensures
        settings_of(before + after) == Settings::Ok(
            Config {
                app_path: if settings_of(after)->Ok_0.app_path is Some {
                    settings_of(after)->Ok_0.app_path
                } else {
                    settings_of(before)->Ok_0.app_path
                },
                cfg_path: if settings_of(after)->Ok_0.cfg_path is Some {
                    settings_of(after)->Ok_0.cfg_path
                } else {
                    settings_of(before)->Ok_0.cfg_path
                },
            },
        ),
{
    lemma_first_error_concat(before, after);
    lemma_last_value_concat(before, after, "app_path"@);
    lemma_last_value_concat(before, after, "cfg_path"@);
}

/// A last value comes from one of the lines.
proof fn lemma_last_value_from(entries: Seq<Entry>, key: Seq<char>)
    ensures
        last_value(entries, key) is Some ==> exists|i: int|
            0 <= i < entries.len() && #[trigger] entries[i] == Entry::Ok(
                Some((key, last_value(entries, key)->0)),
            ),
    decreases entries.len(),
{
    if entries.len() > 0 {
        lemma_last_value_from(entries.drop_last(), key);
        if last_value(entries.drop_last(), key) is Some {
            let i = choose|i: int|
                0 <= i < entries.drop_last().len() && #[trigger] entries.drop_last()[i]
                    == Entry::Ok(Some((key, last_value(entries.drop_last(), key)->0)));
            assert(entries[i] == entries.drop_last()[i]);
        }
        assert(entries[entries.len() - 1] == entries.last());
    }
}

/// Trimming adds nothing to a text.
proof fn lemma_trimmed_no_feed(s: Seq<char>)
    requires
        !s.contains('\n'),
    ensures
        !trimmed(s).contains('\n'),
{
    let t = trim_start(s);
    let u = trim_end(t);
    lemma_trim_start(s);
    lemma_trim_end(t);
    assert forall|i: int| 0 <= i < u.len() implies u[i] != '\n' by {
        assert(u[i] == t[i]);
        assert(t[i] == s[s.len() - t.len() + i]);
    }
}

/// A setting that a file gives is not empty, has no white space around it, and holds no
/// line feed.
proof fn lemma_setting_clean(content: Seq<u8>, key: Seq<char>)
    ensures
        last_value(file_entries(content), key) matches Some(value) ==> value.len() > 0 && trimmed(
            value,
        ) == value && !value.contains('\n'),
{
    let entries = file_entries(content);
    lemma_last_value_from(entries, key);
    if let Some(value) = last_value(entries, key) {
        let i = choose|i: int|
            0 <= i < entries.len() && #[trigger] entries[i] == Entry::Ok(Some((key, value)));
        let line = decode_utf8(byte_lines(content)[i]);
        assert(entries[i] == parsed_bytes(byte_lines(content)[i]));
        let text = trimmed(line);
        let right = text.skip(position(text, '=') + 1int);
        law_trimmed_is_trimmed(right);
        lemma_lines_no_feed(content, 10u8, 13u8);
        lemma_decode_no_feed(byte_lines(content)[i]);
        lemma_trimmed_no_feed(line);
        lemma_position(text, '=');
        assert forall|j: int| 0 <= j < right.len() implies right[j] != '\n' by {
            assert(right[j] == text[position(text, '=') + 1 + j]);
        }
        lemma_trimmed_no_feed(right);
    }
}

/// Settings that were loaded are complete: both are there, neither is empty, and neither
/// has white space around it or holds a line feed.
pub proof fn law_loaded_settings_are_complete(file: Result<ReadFileView, Seq<char>>)
    ensures
        loaded(file) matches Ok(config) ==> {
            &&& config.app_path matches Some(app_path) && app_path.len() > 0 && trimmed(app_path)
                == app_path && !app_path.contains('\n')
            &&& config.cfg_path matches Some(cfg_path) && cfg_path.len() > 0 && trimmed(cfg_path)
                == cfg_path && !cfg_path.contains('\n')
        },
{
    if let Ok(file) = file {
        if file.failure is Some {
            law_failed_read_gives_no_settings(file);
        }
        lemma_setting_clean(file.content, "app_path"@);
        lemma_setting_clean(file.content, "cfg_path"@);
    }
}

/// The text is white space, if anything.
pub open spec fn is_blank(s: Seq<char>) -> bool {
    forall|i: int| 0 <= i < s.len() ==> is_white_space(#[trigger] s[i])
}

/// A text that starts and ends in something else than white space.
pub open spec fn is_tight(s: Seq<char>) -> bool {
    s.len() > 0 && !is_white_space(s[0]) && !is_white_space(s.last())
}

/// White space around a text does not matter to trimming it.
pub proof fn law_white_space_around_is_trimmed(left: Seq<char>, s: Seq<char>, right: Seq<char>)
    requires
        is_blank(left),
        is_blank(right),
    ensures
        trimmed(left + s + right) == trimmed(s),
        is_tight(s) ==> trimmed(s) == s,
        trimmed(left).len() == 0,
    decreases left.len() + right.len(),
{
    if left.len() > 0 {
        let rest = left.drop_first();
        assert forall|i: int| 0 <= i < rest.len() implies is_white_space(#[trigger] rest[i]) by {
            assert(rest[i] == left[i + 1]);
        }
        law_white_space_around_is_trimmed(rest, s, right);
        assert((left + s + right).drop_first() =~= rest + s + right);
        assert(is_white_space(left[0]));
        assert((left + s + right)[0] == left[0]);
    } else if right.len() > 0 {
        let rest = right.drop_last();
        assert forall|i: int| 0 <= i < rest.len() implies is_white_space(#[trigger] rest[i]) by {
            assert(rest[i] == right[i]);
        }
        law_white_space_around_is_trimmed(left, s, rest);
        assert(is_white_space(right[right.len() - 1]));
        lemma_trimmed_push(left + s + rest, right.last());
        assert((left + s + rest).push(right.last()) =~= left + s + right);
    } else {
        assert(left + s + right =~= s);
    }
}

/// White space around a line does not matter to what it says.
pub proof fn law_white_space_around_a_line_does_not_matter(
    left: Seq<char>,
    line: Seq<char>,
    right: Seq<char>,
)
    requires
        is_blank(left),
        is_blank(right),
    ensures
        parsed_line(left + line + right) == parsed_line(line),
{
    law_white_space_around_is_trimmed(left, line, right);
}

/// A line that starts with `#`, white space aside, says nothing, whatever follows. Nor does
/// a blank line.
pub proof fn law_comments_and_blank_lines_say_nothing(left: Seq<char>, rest: Seq<char>)
    requires
        is_blank(left),
    ensures
        parsed_line(left + seq!['#'] + rest) == Entry::Ok(None),
        parsed_line(left) == Entry::Ok(None),
{
    let line = seq!['#'] + rest;
    let none: Seq<char> = seq![];
    law_white_space_around_is_trimmed(left, line, none);
    assert(left + line + none =~= left + seq!['#'] + rest);
    lemma_trim_end_concat(seq!['#'], rest);
    assert(trim_start(line) == line);
}

/// A line with a key, a `=` and a value, and white space anywhere around the key, says just
/// that. The value is what follows the first `=`, trimmed; it must not be empty.
pub proof fn law_key_and_value_are_read(
    left: Seq<char>,
    key: Seq<char>,
    middle: Seq<char>,
    value: Seq<char>,
)
    requires
        is_blank(left),
        is_blank(middle),
        plain_key(key),
    ensures
        parsed_line(left + key + middle + seq!['='] + value) == if trimmed(value).len() > 0 {
            Entry::Ok(Some((key, trimmed(value))))
        } else {
            Entry::Err(ConfigError::ParseError("Empty value for key '"@ + key + "'"@))
        },
{
    let none: Seq<char> = seq![];
    let front = key + middle + seq!['='];
    let line = front + value;
    law_white_space_around_is_trimmed(left, line, none);
    assert(left + line + none =~= left + key + middle + seq!['='] + value);
    assert(trim_start(line) == line);
    lemma_trim_end_concat(front, value);
    let text = trimmed(line);
    let at = key.len() + middle.len();
    assert forall|i: int| 0 <= i < at implies #[trigger] text[i] != '=' by {
        if i < key.len() {
            assert(text[i] == key[i]);
            assert(key.contains(key[i]));
        } else {
            assert(text[i] == middle[i - key.len()]);
        }
    }
    assert(text[at as int] == '=');
    assert(text.contains('='));
    lemma_position_is(text, '=', at as int);
    assert(text.take(at as int) =~= none + key + middle);
    assert(text.skip(at + 1int) =~= trim_end(value));
    lemma_trimmed_trim_end(value);
    law_white_space_around_is_trimmed(none, key, middle);
}

/// A line with nothing but white space before its first `=` is an error, and so is one
/// without any `=` that is neither blank nor a comment.
pub proof fn law_other_lines_are_errors(
    left: Seq<char>,
    text: Seq<char>,
    right: Seq<char>,
    rest: Seq<char>,
)
    requires
        is_blank(left),
        is_blank(right),
        is_tight(text),
        text[0] != '#',
        !text.contains('='),
    ensures
        parsed_line(left + text + right) == Entry::Err(
            ConfigError::ParseError("Line '"@ + text + "' missing separator '='"@),
        ),
        parsed_line(left + seq!['='] + rest) == Entry::Err(
            ConfigError::ParseError("Empty key"@),
        ),
{
    law_white_space_around_is_trimmed(left, text, right);
    let none: Seq<char> = seq![];
    let line = seq!['='] + rest;
    law_white_space_around_is_trimmed(left, line, none);
    assert(left + line + none =~= left + seq!['='] + rest);
    lemma_trim_end_concat(seq!['='], rest);
    assert(trim_start(line) == line);
    let t = trimmed(line);
    assert(t[0] == '=');
    assert(t.contains('='));
    lemma_position_is(t, '=', 0);
    assert(t.take(0) =~= none);
    law_white_space_around_is_trimmed(none, none, none);
}

/// A text that is empty or ends in a line feed keeps its lines when another text follows,
/// whose lines come after them.
pub proof fn law_lines_of_two_texts(a: Seq<char>, b: Seq<char>)
    requires
        a.len() == 0 || a.last() == '\n',
    ensures
        text_lines(a + b) == text_lines(a) + text_lines(b),
        text_entries(a + b) == text_entries(a) + text_entries(b),
    decreases a.len(),
{
    if a.len() == 0 {
        assert(a + b =~= b);
        assert(text_lines(a) + text_lines(b) =~= text_lines(b));
    } else {
        lemma_position(a, '\n');
        let p = position(a, '\n') as int;
        assert(p < a.len()) by {
            if p == a.len() {
                assert(a[a.len() - 1] != '\n');
            }
        }
        let line = a.take(p);
        let rest = a.skip(p + 1);
        assert(rest.len() > 0 ==> rest.last() == a.last());
        assert(!line.contains('\n'));
        assert(a =~= line + seq!['\n'] + rest);
        assert(a + b =~= line + seq!['\n'] + (rest + b));
        law_lines_of_two_texts(rest, b);
        lemma_lines_cons(line, rest);
        lemma_lines_cons(line, rest + b);
        assert(text_lines(a + b) =~= text_lines(a) + text_lines(b));
    }
    assert(text_entries(a + b) =~= text_entries(a) + text_entries(b));
}

/// A line that ends in a line feed, before the rest of a text, is the first line of the
/// text. A text without a line feed is one line, unless it is empty.
pub proof fn law_first_line_of_a_text(line: Seq<char>, rest: Seq<char>)
    requires
        !line.contains('\n'),
    ensures
        text_entries(line + seq!['\n'] + rest) == seq![parsed_line(line)] + text_entries(rest),
        line.len() > 0 ==> text_entries(line) == seq![parsed_line(line)],
        text_entries(Seq::<char>::empty()).len() == 0,
{
    lemma_position(line, '\n');
    if line.len() > 0 {
        if position(line, '\n') < line.len() {
            assert(line.contains(line[position(line, '\n') as int]));
        }
        assert(text_lines(line) =~= seq![line]);
        assert(text_entries(line) =~= seq![parsed_line(line)]);
    }
    lemma_lines_cons(line, rest);
    lemma_parsed_strip(line);
    assert(text_entries(line + seq!['\n'] + rest) =~= seq![parsed_line(line)] + text_entries(rest));
}

/// A comment or a blank line, put between two lines of a text, changes neither the settings
/// that a file with the text gives nor what is said of its keys.
pub proof fn law_comment_line_changes_nothing(
    before: Seq<char>,
    left: Seq<char>,
    rest: Seq<char>,
    after: Seq<char>,
)
    requires
        before.len() == 0 || before.last() == '\n',
        is_blank(left),
        !left.contains('\n'),
        !rest.contains('\n'),
    ensures
        loaded(Ok(whole_file(before + (left + seq!['#'] + rest) + seq!['\n'] + after))) == loaded(
            Ok(whole_file(before + after)),
        ),
        loaded(Ok(whole_file(before + left + seq!['\n'] + after))) == loaded(
            Ok(whole_file(before + after)),
        ),
        load_notices(
            Ok(whole_file(before + (left + seq!['#'] + rest) + seq!['\n'] + after)),
        ) == load_notices(Ok(whole_file(before + after))),
{
    let comment = left + seq!['#'] + rest;
    law_comments_and_blank_lines_say_nothing(left, rest);
    assert(!(left + seq!['#']).contains('\n')) by {
        assert(!seq!['#'].contains('\n'));
        lemma_no_feed_concat(left, seq!['#']);
    }
    lemma_no_feed_concat(left + seq!['#'], rest);
    lemma_silent_line(before, comment, after);
    lemma_silent_line(before, left, after);
}

/// A line that says nothing changes nothing.
proof fn lemma_silent_line(before: Seq<char>, line: Seq<char>, after: Seq<char>)
    requires
        before.len() == 0 || before.last() == '\n',
        !line.contains('\n'),
        parsed_line(line) == Entry::Ok(None),
    ensures
        loaded(Ok(whole_file(before + line + seq!['\n'] + after))) == loaded(
            Ok(whole_file(before + after)),
        ),
        load_notices(Ok(whole_file(before + line + seq!['\n'] + after))) == load_notices(
            Ok(whole_file(before + after)),
        ),
{
    let text = before + line + seq!['\n'] + after;
    let a = text_entries(before);
    let b = text_entries(after);
    assert(text =~= before + (line + seq!['\n'] + after));
    law_lines_of_two_texts(before, line + seq!['\n'] + after);
    law_first_line_of_a_text(line, after);
    law_lines_of_two_texts(before, after);
    assert(text_entries(text) =~= a + seq![Entry::Ok(None)] + b);
    law_file_says_what_its_text_says(text);
    law_file_says_what_its_text_says(before + after);
    law_comments_do_not_matter(a, b);
    lemma_notices_silent(a, b);
}

/// A line that says nothing does not matter to what is said of keys.
proof fn lemma_notices_silent(before: Seq<Entry>, after: Seq<Entry>)
    ensures
        unknown_keys(before + seq![Entry::Ok(None)] + after) == unknown_keys(before + after),
        first_error(before + seq![Entry::Ok(None)] + after) == first_error(before + after),
    decreases after.len(),
{
    let all = before + seq![Entry::Ok(None)] + after;
    if after.len() == 0 {
        assert(all.drop_last() =~= before);
        assert(before + after =~= before);
    } else {
        lemma_notices_silent(before, after.drop_last());
        assert(all.drop_last() =~= before + seq![Entry::Ok(None)] + after.drop_last());
        assert((before + after).drop_last() =~= before + after.drop_last());
    }
}

/// The line gives this key a value.
pub open spec fn has_key(entry: Entry, key: Seq<char>) -> bool {
    match entry {
        Ok(Some((k, _))) => k == key,
        _ => false,
    }
}

/// One of the lines gives this key a value.
pub open spec fn gives(entries: Seq<Entry>, key: Seq<char>) -> bool {
    exists|i: int| 0 <= i < entries.len() && has_key(#[trigger] entries[i], key)
}

/// Every line is understood.
pub open spec fn all_understood(entries: Seq<Entry>) -> bool {
    forall|i: int| 0 <= i < entries.len() ==> (#[trigger] entries[i]) is Ok
}

/// There is no last value of a key that the lines do not give, and there is one of a key
/// that they give.
proof fn lemma_gives(entries: Seq<Entry>, key: Seq<char>)
    ensures
        last_value(entries, key) is Some == gives(entries, key),
    decreases entries.len(),
{
    lemma_last_value_from(entries, key);
    if entries.len() > 0 && gives(entries, key) {
        let front = entries.drop_last();
        let i = choose|i: int| 0 <= i < entries.len() && has_key(#[trigger] entries[i], key);
        lemma_gives(front, key);
        if i < front.len() {
            assert(front[i] == entries[i]);
        }
    }
}

/// Of a file in which every line is understood, the last line with the key `app_path` and the
/// last one with the key `cfg_path` give the settings; a file without the one or without the
/// other gives the error that says so.
pub proof fn law_last_lines_give_the_settings(
    file: ReadFileView,
    app_at: int,
    app_path: Seq<char>,
    cfg_at: int,
    cfg_path: Seq<char>,
)
    requires
        file.failure is None,
        all_understood(file_entries(file.content)),
    ensures
        ({
            let entries = file_entries(file.content);
            &&& !gives(entries, "app_path"@) ==> loaded(Ok(file)) == Settings::Err(
                ConfigError::MissingField("app_path is required"@),
            )
            &&& gives(entries, "app_path"@) && !gives(entries, "cfg_path"@) ==> loaded(Ok(file))
                == Settings::Err(ConfigError::MissingField("cfg_path is required"@))
            &&& 0 <= app_at < entries.len() && 0 <= cfg_at < entries.len() && entries[app_at]
                == Entry::Ok(Some(("app_path"@, app_path))) && entries[cfg_at] == Entry::Ok(
                Some(("cfg_path"@, cfg_path)),
            ) && !gives(entries.skip(app_at + 1), "app_path"@) && !gives(
                entries.skip(cfg_at + 1),
                "cfg_path"@,
            ) ==> loaded(Ok(file)) == Settings::Ok(
                Config { app_path: Some(app_path), cfg_path: Some(cfg_path) },
            )
        }),
{
    let entries = file_entries(file.content);
    lemma_no_error(entries);
    lemma_gives(entries, "app_path"@);
    lemma_gives(entries, "cfg_path"@);
    if 0 <= app_at < entries.len() && entries[app_at] == Entry::Ok(
        Some(("app_path"@, app_path)),
    ) && !gives(entries.skip(app_at + 1), "app_path"@) {
        lemma_last_value_at(entries, app_at, "app_path"@, app_path);
    }
    if 0 <= cfg_at < entries.len() && entries[cfg_at] == Entry::Ok(
        Some(("cfg_path"@, cfg_path)),
    ) && !gives(entries.skip(cfg_at + 1), "cfg_path"@) {
        lemma_last_value_at(entries, cfg_at, "cfg_path"@, cfg_path);
    }
}

/// The value of a line with a key that no later line has is the last value.
proof fn lemma_last_value_at(entries: Seq<Entry>, at: int, key: Seq<char>, value: Seq<char>)
    requires
        0 <= at < entries.len(),
        entries[at] == Entry::Ok(Some((key, value))),
        !gives(entries.skip(at + 1), key),
    ensures
        last_value(entries, key) == Some(value),
{
    let front = entries.take(at);
    let one: Seq<Entry> = seq![entries[at]];
    let back = entries.skip(at + 1);
    lemma_gives(back, key);
    lemma_one_entry(entries[at]);
    lemma_last_value_concat(front + one, back, key);
    lemma_last_value_concat(front, one, key);
    assert(entries =~= front + one + back);
}

/// The first line that is not understood is the error of the whole file, whatever follows;
/// keys that are not known are mentioned as far as the lines before it go.
pub proof fn law_first_error_decides(
    file: ReadFileView,
    at: int,
    error: ConfigError<Seq<char>>,
)
    requires
        file.failure is None,
        0 <= at < file_entries(file.content).len(),
        all_understood(file_entries(file.content).take(at)),
        file_entries(file.content)[at] == Entry::Err(error),
    ensures
        loaded(Ok(file)) == Settings::Err(error),
        load_notices(Ok(file)) == unknown_keys(file_entries(file.content).take(at)),
{
    let entries = file_entries(file.content);
    let front = entries.take(at);
    let one: Seq<Entry> = seq![entries[at]];
    let back = entries.skip(at + 1);
    lemma_no_error(front);
    lemma_one_entry(entries[at]);
    lemma_first_error_concat(front + one, back);
    lemma_first_error_concat(front, one);
    assert(entries =~= front + one + back);
    assert((front + one).drop_last() =~= front);
    lemma_notices_after_error(front + one, back);
}

/// Nothing is said of keys after an error.
proof fn lemma_notices_after_error(before: Seq<Entry>, after: Seq<Entry>)
    requires
        first_error(before) is Some,
    ensures
        unknown_keys(before + after) == unknown_keys(before),
    decreases after.len(),
{
    if after.len() == 0 {
        assert(before + after =~= before);
    } else {
        lemma_notices_after_error(before, after.drop_last());
        assert((before + after).drop_last() =~= before + after.drop_last());
        lemma_first_error_concat(before, after);
    }
}

/// While every line is understood, a line with a key that is not known is mentioned with its
/// key and value, after those before it; no other line is.
pub proof fn law_unknown_keys_are_mentioned(before: Seq<Entry>, entry: Entry)
    requires
        all_understood(before),
    ensures
        unknown_keys(before.push(entry)) == match entry {
            Ok(Some((key, value))) => if key == "app_path"@ || key == "cfg_path"@ {
                unknown_keys(before)
            } else {
                unknown_keys(before).push("Unknown config key: "@ + key + " = "@ + value)
            },
            _ => unknown_keys(before),
        },
        unknown_keys(Seq::<Entry>::empty()) == Seq::<Seq<char>>::empty(),
{
    assert(before.push(entry).drop_last() =~= before);
    lemma_no_error(before);
}

/// A file that cannot be opened, and bytes that are no UTF-8 on a line, are errors of the
/// reading.
pub proof fn law_unreadable_bytes_are_errors(message: Seq<char>, line: Seq<u8>)
    requires
        !valid_utf8(line),
    ensures
        loaded(Err(message)) == Settings::Err(ConfigError::IoError(message)),
        load_notices(Err(message)).len() == 0,
        parsed_bytes(line) is Err && parsed_bytes(line)->Err_0 is IoError,
{
}

/// Changing the path of the configuration changes one line: the first that starts with
/// `cfg_path=`, or else a new one at the end. All other lines stay as they are, and in their
/// order.
pub proof fn law_update_changes_one_line(lines: Seq<Seq<char>>, at: int, new_path: Seq<char>)
    requires
        0 <= at <= lines.len(),
        forall|i: int| 0 <= i < at ==> !"cfg_path="@.is_prefix_of(#[trigger] lines[i]),
        at < lines.len() ==> "cfg_path="@.is_prefix_of(lines[at]),
    ensures
        updated_lines(lines, new_path) == lines.take(at) + seq!["cfg_path="@ + new_path]
            + if at < lines.len() {
            lines.skip(at + 1)
        } else {
            seq![]
        },
{
    lemma_path_line(lines);
    if at < lines.len() {
        lemma_path_line_is(lines, at);
    } else if path_line(lines) < lines.len() {
        assert(!"cfg_path="@.is_prefix_of(lines[path_line(lines) as int]));
    }
    assert(updated_lines(lines, new_path) =~= lines.take(at) + seq!["cfg_path="@ + new_path]
        + if at < lines.len() {
        lines.skip(at + 1)
    } else {
        seq![]
    });
}

/// What an update writes is the lines with one line feed between two of them: split again,
/// they are the same lines, where none ends in a carriage return or holds a line feed and
/// the last is not empty.
pub proof fn law_written_lines_read_back(lines: Seq<Seq<char>>)
    requires
        lines.len() > 0,
        lines.last().len() > 0,
        forall|i: int|
            0 <= i < lines.len() ==> !(#[trigger] lines[i]).contains('\n') && (lines[i].len() == 0
                || lines[i].last() != '\r'),
    ensures
        text_lines(joined(lines)) == lines,
{
    lemma_lines_joined(lines);
    assert(text_lines(joined(lines)) =~= lines);
}

/// Settings that were loaded, written to a new settings file, read back as they are.
pub proof fn law_loaded_settings_read_back(file: Result<ReadFileView, Seq<char>>)
    requires
        loaded(file) is Ok,
    ensures
        loaded(
            Ok(
                whole_file(
                    default_text(
                        DefaultConfig {
                            app_path: loaded(file)->Ok_0.app_path->0,
                            cfg_path: loaded(file)->Ok_0.cfg_path->0,
                        },
                    ),
                ),
            ),
        ) == loaded(file),
{
    law_loaded_settings_are_complete(file);
    law_default_file_reads_back(
        DefaultConfig {
            app_path: loaded(file)->Ok_0.app_path->0,
            cfg_path: loaded(file)->Ok_0.cfg_path->0,
        },
    );
}

/// Lines are put together with one line feed between two of them, and nothing else.
pub proof fn law_lines_are_joined_by_line_feeds(line: Seq<char>, rest: Seq<Seq<char>>)
    ensures
        joined(Seq::<Seq<char>>::empty()) == Seq::<char>::empty(),
        joined(seq![line]) == line,
        rest.len() > 0 ==> joined(seq![line] + rest) == line + seq!['\n'] + joined(rest),
{
    assert((seq![line] + rest).drop_first() =~= rest);
}

/// Changing the path of the configuration in a text that is made of lines rewrites the first
/// line that starts with `cfg_path=`, or adds a line, and leaves every other character as it
/// is.
pub proof fn law_update_rewrites_one_line_of_a_text(
    lines: Seq<Seq<char>>,
    at: int,
    new_path: Seq<char>,
)
    requires
        lines.len() > 0,
        lines.last().len() > 0,
        forall|i: int|
            0 <= i < lines.len() ==> !(#[trigger] lines[i]).contains('\n') && (lines[i].len() == 0
                || lines[i].last() != '\r'),
        0 <= at <= lines.len(),
        forall|i: int| 0 <= i < at ==> !"cfg_path="@.is_prefix_of(#[trigger] lines[i]),
        at < lines.len() ==> "cfg_path="@.is_prefix_of(lines[at]),
    ensures
        updated_text(joined(lines), new_path) == joined(
            lines.take(at) + seq!["cfg_path="@ + new_path] + if at < lines.len() {
                lines.skip(at + 1)
            } else {
                seq![]
            },
        ),
{
    law_written_lines_read_back(lines);
    law_update_changes_one_line(lines, at, new_path);
}

/// Without any content, the new line is all there is.
pub proof fn law_update_of_nothing(new_path: Seq<char>)
    ensures
        updated_text(Seq::<char>::empty(), new_path) == "cfg_path="@ + new_path,
{
    let none: Seq<Seq<char>> = seq![];
    assert(text_lines(Seq::<char>::empty()) =~= none);
    assert(none.push("cfg_path="@ + new_path) =~= seq!["cfg_path="@ + new_path]);
}

/// The default settings are the two decoded texts, the application first; bytes that are a
/// text decode to it. The first that fails is the error, and it says which step failed.
pub proof fn law_default_settings_are_the_decoded_texts(
    app_path: Seq<char>,
    cfg_path: Seq<char>,
    message: Seq<char>,
    other: Result<Seq<char>, Seq<char>>,
    bytes: Seq<u8>,
)
    ensures
        default_config(Ok(app_path), Ok(cfg_path)) == Ok::<DefaultConfig<Seq<char>>, Seq<char>>(
            DefaultConfig { app_path, cfg_path },
        ),
        default_config(Err(message), other) == Err::<DefaultConfig<Seq<char>>, Seq<char>>(message),
        default_config(Ok(app_path), Err(message)) == Err::<DefaultConfig<Seq<char>>, Seq<char>>(
            message,
        ),
        text_of_decoded(Ok(encode_utf8(app_path))) == Ok::<Seq<char>, Seq<char>>(app_path),
        text_of_decoded(Err(message)) == Err::<Seq<char>, Seq<char>>(
            "Base64 decode error: "@ + message,
        ),
        !valid_utf8(bytes) ==> text_of_decoded(Ok(bytes)) is Err,
{
    encode_utf8_valid_utf8(app_path);
    encode_utf8_decode_utf8(app_path);
}

/// Of bytes that were read in part, the lines count that a line feed ends: all bytes up to the
/// last line feed, and none if there is no line feed.
pub proof fn law_unended_line_does_not_count(ended: Seq<u8>, rest: Seq<u8>)
    requires
        ended.len() == 0 || ended.last() == 10u8,
        !rest.contains(10u8),
    ensures
        ended_lines(ended + rest) == ended,
    decreases rest.len(),
{
    let all = ended + rest;
    if rest.len() == 0 {
        assert(all =~= ended);
    } else {
        assert(rest.contains(rest.last()));
        assert forall|i: int| 0 <= i < rest.drop_last().len() implies rest.drop_last()[i]
            != 10u8 by {
            assert(rest.contains(rest[i]));
        }
        assert(all.drop_last() =~= ended + rest.drop_last());
        law_unended_line_does_not_count(ended, rest.drop_last());
    }
}

} // verus!
