//! File names: the last part of a path, and what stands before and after its last dot.

use vstd::prelude::*;

use crate::text::{characters, option_view};

verus! {

/// Where `x` last occurs in `s`, if it does.
pub open spec fn last_position<T>(s: Seq<T>, x: T) -> Option<int>
    decreases s.len(),
{
    if s.len() == 0 {
        None
    } else if s.last() == x {
        Some(s.len() - 1)
    } else {
        last_position(s.drop_last(), x)
    }
}

/// A file name without its extension: what stands before the last dot, or the whole
/// name where there is no dot but perhaps in front.
pub open spec fn stem_of(name: Seq<char>) -> Seq<char> {
    match last_position(name, '.') {
        Some(at) if at > 0 => name.take(at),
        _ => name,
    }
}

/// The extension of a file name: what stands after the last dot, unless there is no
/// dot but perhaps in front.
pub open spec fn extension_of(name: Seq<char>) -> Option<Seq<char>> {
    match last_position(name, '.') {
        Some(at) if at > 0 => Some(name.skip(at + 1)),
        _ => None,
    }
}

/// What separates the parts of a path.
pub enum Separators {
    Slash,
    Backslash,
    Both,
}

/// The character separates the parts of a path.
pub open spec fn separates(separators: Separators, c: char) -> bool {
    match separators {
        Separators::Slash => c == '/',
        Separators::Backslash => c == '\\',
        Separators::Both => c == '/' || c == '\\',
    }
}

/// What follows the last separator of a path.
pub open spec fn after_last(path: Seq<char>, separators: Separators) -> Seq<char>
    decreases path.len(),
{
    if path.len() == 0 || separates(separators, path.last()) {
        seq![]
    } else {
        after_last(path.drop_last(), separators).push(path.last())
    }
}

/// The last part of a path. Separators at its end do not count, nor do parts `.`; a path
/// that ends in `..` has no last part.
pub open spec fn last_part(path: Seq<char>, separators: Separators) -> Option<Seq<char>>
    decreases path.len(),
{
    let part = after_last(path, separators);
    if path.len() == 0 || part == seq!['.', '.'] {
        None
    } else if part.len() == 0 || part == seq!['.'] {
        last_part(path.drop_last(), separators)
    } else {
        Some(part)
    }
}

/// A path starts with two separators: it may name a share or a device.
pub open spec fn starts_with_two_separators(path: Seq<char>) -> bool {
    path.len() >= 2 && separates(Separators::Both, path[0]) && separates(Separators::Both, path[1])
}

/// What the last part of a path may be. On Unix a slash separates the parts; on Windows a
/// backslash does too, and what stands before them may be a drive with its colon, or the
/// name of a share or of a device, which is no part of the path. After such a name the
/// slash may separate nothing.
pub open spec fn possible_name(path: Seq<char>, name: Option<Seq<char>>) -> bool {
    ||| name == last_part(path, Separators::Slash)
    ||| name == last_part(path, Separators::Both)
    ||| path.len() >= 2 && path[1] == ':' && name == last_part(path.skip(2), Separators::Both)
    ||| starts_with_two_separators(path) && (name is None || name == last_part(
        path,
        Separators::Backslash,
    ))
}

/// A text that is a file name by itself, whatever separates the parts of a path: it has
/// no separator in it and is none of the names of directories relative to another.
pub open spec fn is_plain_name(s: Seq<char>) -> bool {
    &&& s.len() > 0
    &&& !s.contains('/')
    &&& !s.contains('\\')
    &&& !s.contains(':')
    &&& s != seq!['.']
    &&& s != seq!['.', '.']
}

/// A path that ends in a plain name, such as one that was put together from a directory and
/// the name of a file in it.
pub open spec fn ends_in_name(path: Seq<char>) -> bool {
    !starts_with_two_separators(path) && is_plain_name(after_last(path, Separators::Both))
}

/// The last part of a path where every operating system takes it to be the same: a plain
/// name, either the whole path or what follows its last slash.
pub open spec fn obvious_name(path: Seq<char>) -> Option<Seq<char>> {
    if ends_in_name(path) && after_last(path, Separators::Slash) == after_last(
        path,
        Separators::Both,
    ) {
        Some(after_last(path, Separators::Both))
    } else {
        None
    }
}

/// Calls `std::path::Path::file_name`: the last part of a path, if it has one. Which part
/// that is rests on the operating system; what is claimed is that it is the one that Unix
/// or Windows takes.
#[verifier::external_body]
pub(crate) fn file_name(path: &str) -> (r: Option<String>)
    ensures
        possible_name(path@, option_view(r)),
{
    std::path::Path::new(path).file_name().map(|name| name.to_string_lossy().into_owned())
}

/// What follows the last separator is an end of the path without a separator, and there is
/// one right before it unless it is the whole path.
proof fn lemma_after_last(path: Seq<char>, separators: Separators)
    ensures
        after_last(path, separators).len() <= path.len(),
        after_last(path, separators) == path.skip(path.len() - after_last(path, separators).len()),
        forall|i: int|
            0 <= i < after_last(path, separators).len() ==> !separates(
                separators,
                #[trigger] after_last(path, separators)[i],
            ),
        after_last(path, separators).len() < path.len() ==> separates(
            separators,
            path[path.len() - after_last(path, separators).len() - 1],
        ),
    decreases path.len(),
{
    if path.len() > 0 && !separates(separators, path.last()) {
        let front = path.drop_last();
        lemma_after_last(front, separators);
        let at = front.len() - after_last(front, separators).len();
        assert(path.skip(at) =~= front.skip(at).push(path.last()));
    } else {
        assert(path.skip(path.len() as int) =~= seq![]);
    }
}

/// What follows the last separator does not rest on what stands before that separator.
proof fn lemma_after_last_skip(path: Seq<char>, separators: Separators, n: int)
    requires
        0 <= n <= path.len() - after_last(path, separators).len(),
    ensures
        after_last(path.skip(n), separators) == after_last(path, separators),
    decreases path.len(),
{
    if n < path.len() && !separates(separators, path.last()) {
        assert(path.skip(n).drop_last() =~= path.drop_last().skip(n));
        lemma_after_last_skip(path.drop_last(), separators, n);
    }
}

/// A path that ends in a plain name has a last part, whatever the operating system: that
/// name, or what follows the last slash, which ends in it. If the plain name has an
/// extension, that is the extension of the last part.
pub proof fn law_possible_names_end_alike(path: Seq<char>, name: Option<Seq<char>>)
    requires
        ends_in_name(path),
        possible_name(path, name),
    ensures
        name == Some(after_last(path, Separators::Both)) || name == Some(
            after_last(path, Separators::Slash),
        ),
        after_last(path, Separators::Both).is_suffix_of(name->0),
        extension_of(after_last(path, Separators::Both)) is Some ==> extension_of(name->0)
            == extension_of(after_last(path, Separators::Both)),
{
    let plain = after_last(path, Separators::Both);
    let long = after_last(path, Separators::Slash);
    lemma_after_last(path, Separators::Both);
    lemma_after_last(path, Separators::Slash);
    assert(plain.len() <= long.len()) by {
        if long.len() < plain.len() {
            let at = path.len() - long.len() - 1;
            assert(plain[at - (path.len() - plain.len())] == path[at]);
        }
    }
    let before = long.take(long.len() - plain.len());
    assert(long =~= before + plain);
    if plain.len() < long.len() {
        let at = path.len() - plain.len() - 1;
        let inside = at - (path.len() - long.len());
        assert(long[inside] == path[at]);
        assert(long[inside] == '\\');
        assert(long != seq!['.'] && long != seq!['.', '.']);
    } else {
        assert(long =~= plain);
    }
    if path.len() >= 2 && path[1] == ':' {
        assert(plain.len() <= path.len() - 2) by {
            if plain.len() > path.len() - 2 {
                assert(plain[1 - (path.len() - plain.len())] == ':');
                assert(plain.contains(':'));
            }
        }
        lemma_after_last_skip(path, Separators::Both, 2);
    }
    if extension_of(plain) is Some {
        lemma_last_position(plain, '.');
        lemma_last_position_concat(before, plain, '.');
        let at = last_position(plain, '.')->0;
        assert(long.skip(before.len() + at + 1) =~= plain.skip(at + 1));
    }
}

/// Where the last part of a path is obvious, it is that.
pub proof fn law_obvious_name_is_the_name(path: Seq<char>, name: Option<Seq<char>>)
    requires
        obvious_name(path) is Some,
        possible_name(path, name),
    ensures
        name == obvious_name(path),
{
    law_possible_names_end_alike(path, name);
}

/// Finds where the last dot of a name stands, if that is not in front.
fn inner_dot(name: &str) -> (r: Option<usize>)
    ensures
        match r {
            Some(at) => 0 < at < name@.len() && last_position(name@, '.') == Some(at as int),
            None => last_position(name@, '.') is None || last_position(name@, '.') == Some(0int),
        },
{
    let chars = characters(name);
    let mut end: usize = chars.len();
    assert(name@.take(end as int) =~= name@);
    while end > 1
        invariant
            chars@ == name@,
            end <= chars.len(),
            last_position(name@.take(end as int), '.') == last_position(name@, '.'),
        decreases end,
    {
        if chars[end - 1] == '.' {
            return Some(end - 1);
        }
        assert(name@.take(end as int).drop_last() =~= name@.take(end - 1));
        end = end - 1;
    }
    if end == 1 {
        assert(name@.take(1).drop_last() =~= seq![]);
        assert(last_position(name@.take(1).drop_last(), '.') is None);
    }
    None
}

/// A file name without its extension.
pub fn file_stem(name: &str) -> (r: String)
    ensures
        r@ == stem_of(name@),
{
    match inner_dot(name) {
        Some(at) => {
            assert(name@.subrange(0, at as int) =~= name@.take(at as int));
            name.substring_char(0, at).to_string()
        },
        None => name.to_string(),
    }
}

/// The extension of a file name, if it has one.
pub fn extension(name: &str) -> (r: Option<String>)
    ensures
        option_view(r) == extension_of(name@),
{
    match inner_dot(name) {
        Some(at) => {
            let len: usize = characters(name).len();
            assert(name@.subrange(at + 1, len as int) =~= name@.skip(at + 1));
            Some(name.substring_char(at + 1, len).to_string())
        },
        None => None,
    }
}

/// A file name with an extension is its stem, a dot and its extension.
pub proof fn law_name_is_stem_and_extension(name: Seq<char>)
    ensures
        match extension_of(name) {
            Some(extension) => name == stem_of(name) + seq!['.'] + extension && !extension.contains(
                '.',
            ),
            None => name == stem_of(name),
        },
{
    lemma_last_position(name, '.');
    if let Some(extension) = extension_of(name) {
        let at = last_position(name, '.')->0;
        assert(name =~= stem_of(name) + seq!['.'] + extension);
        assert forall|i: int| 0 <= i < extension.len() implies extension[i] != '.' by {
            assert(extension[i] == name[at + 1 + i]);
        }
    }
}

/// A name made of something, a dot and an extension without a dot has these as its stem and
/// extension. A name without a dot but perhaps in front has no extension.
pub proof fn law_stem_and_extension_of_a_name(stem: Seq<char>, extension: Seq<char>)
    requires
        stem.len() > 0,
        !extension.contains('.'),
    ensures
        stem_of(stem + seq!['.'] + extension) == stem,
        extension_of(stem + seq!['.'] + extension) == Some(extension),
        stem_of(extension) == extension && extension_of(extension) is None,
        stem_of(seq!['.'] + extension) == seq!['.'] + extension,
        extension_of(seq!['.'] + extension) is None,
{
    let name = stem + seq!['.'] + extension;
    let tail = seq!['.'] + extension;
    assert(tail[0] == '.');
    lemma_last_position(tail, '.');
    assert(last_position(tail, '.') == Some(0int)) by {
        if let Some(at) = last_position(tail, '.') {
            if at > 0 {
                assert(extension[at - 1] == '.');
            }
        } else {
            assert(tail.contains(tail[0]));
        }
    }
    lemma_last_position_concat(stem, tail, '.');
    assert(name =~= stem + tail);
    assert(name.take(stem.len() as int) =~= stem);
    assert(name.skip(stem.len() + 1int) =~= extension);
    lemma_last_position(extension, '.');
}

/// The stem of a name is empty only if the name is.
pub proof fn lemma_stem_not_empty(name: Seq<char>)
    requires
        name.len() > 0,
    ensures
        stem_of(name).len() > 0,
{
    lemma_last_position(name, '.');
}

/// Where `x` last occurs in two texts together, if it occurs in the second.
proof fn lemma_last_position_concat<T>(a: Seq<T>, b: Seq<T>, x: T)
    requires
        last_position(b, x) is Some,
    ensures
        last_position(a + b, x) == Some(a.len() + last_position(b, x)->0),
    decreases b.len(),
{
    assert((a + b).last() == b.last());
    if b.last() != x {
        assert((a + b).drop_last() =~= a + b.drop_last());
        lemma_last_position_concat(a, b.drop_last(), x);
    }
}

/// Where `x` last occurs there is one, and none after it.
proof fn lemma_last_position<T>(s: Seq<T>, x: T)
    ensures
        match last_position(s, x) {
            Some(at) => 0 <= at < s.len() && s[at] == x && forall|i: int|
                at < i < s.len() ==> #[trigger] s[i] != x,
            None => !s.contains(x),
        },
    decreases s.len(),
{
    if s.len() > 0 && s.last() != x {
        let front = s.drop_last();
        lemma_last_position(front, x);
        match last_position(front, x) {
            Some(at) => {
                assert forall|i: int| at < i < s.len() implies #[trigger] s[i] != x by {
                    if i < front.len() {
                        assert(front[i] == s[i]);
                    }
                }
            },
            None => {
                assert forall|i: int| 0 <= i < s.len() implies s[i] != x by {
                    if i < front.len() {
                        assert(front.contains(front[i]));
                    }
                }
            },
        }
    }
}

} // verus!
