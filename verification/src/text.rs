//! Text as sequences of characters: trimming, searching, splitting into lines,
//! numbers in decimal, and UTF-16.

use vstd::prelude::*;

verus! {

/// The characters with the Unicode property `White_Space`.
pub open spec fn is_white_space(c: char) -> bool {
    ||| '\u{9}' <= c <= '\u{d}'
    ||| c == '\u{20}'
    ||| c == '\u{85}'
    ||| c == '\u{a0}'
    ||| c == '\u{1680}'
    ||| '\u{2000}' <= c <= '\u{200a}'
    ||| c == '\u{2028}'
    ||| c == '\u{2029}'
    ||| c == '\u{202f}'
    ||| c == '\u{205f}'
    ||| c == '\u{3000}'
}

/// `s` without its leading white space.
pub open spec fn trim_start(s: Seq<char>) -> Seq<char>
    decreases s.len(),
{
    if s.len() > 0 && is_white_space(s[0]) {
        trim_start(s.drop_first())
    } else {
        s
    }
}

/// `s` without its trailing white space.
pub open spec fn trim_end(s: Seq<char>) -> Seq<char>
    decreases s.len(),
{
    if s.len() > 0 && is_white_space(s.last()) {
        trim_end(s.drop_last())
    } else {
        s
    }
}

/// `s` without its leading and trailing white space.
pub open spec fn trimmed(s: Seq<char>) -> Seq<char> {
    trim_end(trim_start(s))
}

/// Where `x` first occurs in `s`; the length of `s` if it does not.
pub open spec fn position<T>(s: Seq<T>, x: T) -> nat
    decreases s.len(),
{
    if s.len() == 0 || s[0] == x {
        0
    } else {
        1 + position(s.drop_first(), x)
    }
}

/// `part` occurs in `s` as a run of consecutive elements.
pub open spec fn occurs_in<T>(part: Seq<T>, s: Seq<T>) -> bool {
    exists|i: int|
        0 <= i && i + part.len() <= s.len() && #[trigger] s.subrange(i, i + part.len()) == part
}

/// `s` without one `cr` at its end, if it ends in one.
pub open spec fn strip_return<T>(s: Seq<T>, cr: T) -> Seq<T> {
    if s.len() > 0 && s.last() == cr {
        s.drop_last()
    } else {
        s
    }
}

/// The lines of `s`. A line ends at `nl`, which does not belong to it, nor does a
/// `cr` right before that `nl`; what follows the last `nl` is a line unless it is
/// empty.
pub open spec fn lines_of<T>(s: Seq<T>, nl: T, cr: T) -> Seq<Seq<T>>
    decreases s.len(),
{
    if s.len() == 0 {
        seq![]
    } else if position(s, nl) >= s.len() {
        seq![s]
    } else {
        seq![strip_return(s.take(position(s, nl) as int), cr)] + lines_of(
            s.skip((position(s, nl) + 1) as int),
            nl,
            cr,
        )
    }
}

/// The lines of a text.
pub open spec fn text_lines(s: Seq<char>) -> Seq<Seq<char>> {
    lines_of(s, '\n', '\r')
}

/// The lines of a file's bytes.
pub open spec fn byte_lines(s: Seq<u8>) -> Seq<Seq<u8>> {
    lines_of(s, 10u8, 13u8)
}

/// The lines put together again, with one line feed between two of them.
pub open spec fn joined(lines: Seq<Seq<char>>) -> Seq<char>
    decreases lines.len(),
{
    if lines.len() == 0 {
        seq![]
    } else if lines.len() == 1 {
        lines[0]
    } else {
        lines[0] + seq!['\n'] + joined(lines.drop_first())
    }
}

/// The contents of strings.
pub open spec fn views(strings: Seq<String>) -> Seq<Seq<char>> {
    strings.map_values(|s: String| s@)
}

/// The contents of an optional string.
pub open spec fn option_view(s: Option<String>) -> Option<Seq<char>> {
    match s {
        Some(s) => Some(s@),
        None => None,
    }
}

/// The contents of byte strings.
pub open spec fn byte_views(strings: Seq<Vec<u8>>) -> Seq<Seq<u8>> {
    strings.map_values(|s: Vec<u8>| s@)
}

/// The decimal digit for `d`.
pub open spec fn digit(d: nat) -> char
    recommends
        d < 10,
{
    ('0' as u32 + d) as char
}

/// `n` in decimal, without leading zeros.
pub open spec fn decimal(n: nat) -> Seq<char>
    decreases n,
{
    if n < 10 {
        seq![digit(n)]
    } else {
        decimal(n / 10).push(digit(n % 10))
    }
}

/// `c` is one of the ten ASCII digits.
pub open spec fn is_digit(c: char) -> bool {
    '0' <= c <= '9'
}

/// What a sequence of decimal digits stands for.
pub open spec fn digits_value(s: Seq<char>) -> nat
    decreases s.len(),
{
    if s.len() == 0 {
        0
    } else {
        10 * digits_value(s.drop_last()) + (s.last() as u32 - '0' as u32) as nat
    }
}

/// `s` without one plus sign in front of it, if it has one.
pub open spec fn unsigned_part(s: Seq<char>) -> Seq<char> {
    if s.len() > 0 && s[0] == '+' {
        s.drop_first()
    } else {
        s
    }
}

/// The number that `s` denotes: one or more decimal digits, with an optional plus
/// sign in front, for a value that fits in 32 bits.
pub open spec fn number(s: Seq<char>) -> Option<u32> {
    let digits = unsigned_part(s);
    if digits.len() > 0 && (forall|i: int| 0 <= i < digits.len() ==> is_digit(#[trigger] digits[i]))
        && digits_value(digits) <= u32::MAX {
        Some(digits_value(digits) as u32)
    } else {
        None
    }
}

/// The UTF-16 code units of one character.
pub open spec fn utf16_units(c: char) -> Seq<u16> {
    let v = c as u32;
    if v < 0x10000 {
        seq![v as u16]
    } else {
        seq![(0xd800 + (v - 0x10000) / 0x400) as u16, (0xdc00 + (v - 0x10000) % 0x400) as u16]
    }
}

/// A text in UTF-16.
pub open spec fn utf16(s: Seq<char>) -> Seq<u16>
    decreases s.len(),
{
    if s.len() == 0 {
        seq![]
    } else {
        utf16(s.drop_last()) + utf16_units(s.last())
    }
}

/// Tells whether `c` is white space.
pub fn white_space(c: char) -> (r: bool)
    ensures
        r == is_white_space(c),
{
    ('\u{9}' <= c && c <= '\u{d}') || c == '\u{20}' || c == '\u{85}' || c == '\u{a0}' || c
        == '\u{1680}' || ('\u{2000}' <= c && c <= '\u{200a}') || c == '\u{2028}' || c == '\u{2029}'
        || c == '\u{202f}' || c == '\u{205f}' || c == '\u{3000}'
}

/// The characters of `s`, one by one.
pub fn characters(s: &str) -> (r: Vec<char>)
    ensures
        r@ == s@,
{
    let mut r: Vec<char> = Vec::new();
    for c in it: s.chars()
        invariant
            it.seq() == s@,
            r@ == s@.take(it.index() as int),
    {
        r.push(c);
    }
    r
}

/// Tells whether two texts are the same.
pub fn same_text(a: &str, b: &str) -> (r: bool)
    ensures
        r == (a@ == b@),
{
    a.to_string() == b.to_string()
}

/// `s` without its leading and trailing white space.
pub fn trim(s: &str) -> (r: &str)
    ensures
        r@ == trimmed(s@),
{
    let chars = characters(s);
    let mut from: usize = 0;
    assert(s@.skip(0) =~= s@);
    while from < chars.len() && white_space(chars[from])
        invariant
            from <= chars.len(),
            chars@ == s@,
            trim_start(s@.skip(from as int)) == trim_start(s@),
        decreases chars.len() - from,
    {
        assert(s@.skip(from as int).drop_first() =~= s@.skip(from + 1));
        from = from + 1;
    }
    assert(trim_start(s@) == s@.skip(from as int));
    let mut to: usize = chars.len();
    assert(s@.subrange(from as int, to as int) =~= s@.skip(from as int));
    while from < to && white_space(chars[to - 1])
        invariant
            from <= to <= chars.len(),
            chars@ == s@,
            trim_end(s@.subrange(from as int, to as int)) == trimmed(s@),
        decreases to,
    {
        assert(s@.subrange(from as int, to as int).drop_last() =~= s@.subrange(
            from as int,
            to - 1,
        ));
        to = to - 1;
    }
    s.substring_char(from, to)
}


/// Tells whether `s` begins with `prefix`.
pub fn starts_with(s: &str, prefix: &str) -> (r: bool)
    ensures
        r == prefix@.is_prefix_of(s@),
{
    let chars = characters(s);
    let first = characters(prefix);
    if first.len() > chars.len() {
        return false;
    }
    let mut i: usize = 0;
    while i < first.len()
        invariant
            chars@ == s@,
            first@ == prefix@,
            i <= first.len() <= chars.len(),
            forall|j: int| 0 <= j < i ==> s@[j] == prefix@[j],
        decreases first.len() - i,
    {
        if chars[i] != first[i] {
            assert(s@.take(first.len() as int)[i as int] != prefix@[i as int]);
            return false;
        }
        i = i + 1;
    }
    assert(s@.take(first.len() as int) =~= prefix@);
    true
}

/// Tells whether `s` ends with `suffix`.
pub fn ends_with(s: &str, suffix: &str) -> (r: bool)
    ensures
        r == suffix@.is_suffix_of(s@),
{
    let chars = characters(s);
    let last = characters(suffix);
    if last.len() > chars.len() {
        return false;
    }
    let start: usize = chars.len() - last.len();
    let mut i: usize = 0;
    while i < last.len()
        invariant
            chars@ == s@,
            last@ == suffix@,
            i <= last.len() <= chars.len(),
            start == chars.len() - last.len(),
            forall|j: int| 0 <= j < i ==> s@[start + j] == suffix@[j],
        decreases last.len() - i,
    {
        if chars[start + i] != last[i] {
            assert(s@.skip(start as int)[i as int] != suffix@[i as int]);
            return false;
        }
        i = i + 1;
    }
    assert(s@.skip(start as int) =~= suffix@);
    true
}

/// Tells whether the character `c` occurs in `s`.
pub fn has_char(s: &str, c: char) -> (r: bool)
    ensures
        r == s@.contains(c),
{
    let chars = characters(s);
    let mut i: usize = 0;
    while i < chars.len()
        invariant
            chars@ == s@,
            i <= chars.len(),
            forall|j: int| 0 <= j < i ==> s@[j] != c,
        decreases chars.len() - i,
    {
        if chars[i] == c {
            assert(s@[i as int] == c);
            return true;
        }
        i = i + 1;
    }
    false
}

/// Tells whether the text `part` occurs in `s`.
pub fn has_part(s: &str, part: &str) -> (r: bool)
    ensures
        r == occurs_in(part@, s@),
{
    let chars = characters(s);
    let wanted = characters(part);
    if wanted.len() > chars.len() {
        return false;
    }
    let mut i: usize = 0;
    while i <= chars.len() - wanted.len()
        invariant
            chars@ == s@,
            wanted@ == part@,
            wanted.len() <= chars.len(),
            i <= chars.len() - wanted.len() + 1,
            forall|k: int| 0 <= k < i ==> #[trigger] s@.subrange(k, k + part@.len()) != part@,
        decreases chars.len() - i + 1,
    {
        let mut j: usize = 0;
        while j < wanted.len() && chars[i + j] == wanted[j]
            invariant
                chars@ == s@,
                wanted@ == part@,
                j <= wanted.len() <= chars.len(),
                i <= chars.len() - wanted.len(),
                forall|k: int| 0 <= k < j ==> s@[i + k] == part@[k],
            decreases wanted.len() - j,
        {
            j = j + 1;
        }
        if j == wanted.len() {
            assert(s@.subrange(i as int, i + part@.len()) =~= part@);
            return true;
        }
        assert(s@.subrange(i as int, i + part@.len())[j as int] != part@[j as int]);
        if i == chars.len() - wanted.len() {
            return false;
        }
        i = i + 1;
    }
    false
}

/// Where `x` first occurs lies inside the sequence or at its end, nothing before it
/// is `x`, and what stands there, if anything, is `x`.
pub proof fn lemma_position<T>(s: Seq<T>, x: T)
    ensures
        position(s, x) <= s.len(),
        position(s, x) < s.len() ==> s[position(s, x) as int] == x,
        forall|i: int| 0 <= i < position(s, x) ==> #[trigger] s[i] != x,
    decreases s.len(),
{
    if s.len() > 0 && s[0] != x {
        lemma_position(s.drop_first(), x);
        assert forall|i: int| 0 <= i < position(s, x) implies #[trigger] s[i] != x by {
            if i > 0 {
                assert(s.drop_first()[i - 1] == s[i]);
            }
        }
    }
}

/// An index before which there is no `x`, and at which there is one or the end, is
/// where `x` first occurs.
pub proof fn lemma_position_is<T>(s: Seq<T>, x: T, at: int)
    requires
        0 <= at <= s.len(),
        at < s.len() ==> s[at] == x,
        forall|i: int| 0 <= i < at ==> #[trigger] s[i] != x,
    ensures
        position(s, x) == at,
{
    lemma_position(s, x);
    if position(s, x) < at {
        assert(s[position(s, x) as int] != x);
    }
    if at < position(s, x) {
        assert(s[at] != x);
    }
}

/// Where `c` first occurs in `s`, if it does.
pub fn find_char(s: &str, c: char) -> (r: Option<usize>)
    ensures
        match r {
            Some(i) => i == position(s@, c) && i < s@.len(),
            None => position(s@, c) == s@.len(),
        },
{
    let chars = characters(s);
    let mut i: usize = 0;
    while i < chars.len()
        invariant
            chars@ == s@,
            i <= chars.len(),
            forall|j: int| 0 <= j < i ==> s@[j] != c,
        decreases chars.len() - i,
    {
        if chars[i] == c {
            proof {
                lemma_position_is(s@, c, i as int);
            }
            return Some(i);
        }
        i = i + 1;
    }
    proof {
        lemma_position_is(s@, c, i as int);
    }
    None
}

/// Splits off the first line: `s` from `start` on holds no `nl` before `end`, where
/// it has one.
proof fn lemma_first_line<T>(s: Seq<T>, start: int, end: int, nl: T, cr: T)
    requires
        0 <= start <= end < s.len(),
        s[end] == nl,
        forall|j: int| start <= j < end ==> #[trigger] s[j] != nl,
    ensures
        lines_of(s.skip(start), nl, cr) == seq![strip_return(s.subrange(start, end), cr)]
            + lines_of(s.skip(end + 1), nl, cr),
{
    let rest = s.skip(start);
    assert forall|i: int| 0 <= i < end - start implies #[trigger] rest[i] != nl by {
        assert(rest[i] == s[start + i]);
    }
    lemma_position_is(rest, nl, end - start);
    assert(rest.take(end - start) =~= s.subrange(start, end));
    assert(rest.skip(end - start + 1) =~= s.skip(end + 1));
}

/// The last line: `s` from `start` on holds no `nl`.
proof fn lemma_last_line<T>(s: Seq<T>, start: int, nl: T, cr: T)
    requires
        0 <= start <= s.len(),
        forall|j: int| start <= j < s.len() ==> #[trigger] s[j] != nl,
    ensures
        lines_of(s.skip(start), nl, cr) == if start == s.len() {
            seq![]
        } else {
            seq![s.skip(start)]
        },
{
    let rest = s.skip(start);
    if start < s.len() {
        assert forall|i: int| 0 <= i < rest.len() implies #[trigger] rest[i] != nl by {
            assert(rest[i] == s[start + i]);
        }
        lemma_position_is(rest, nl, rest.len() as int);
    }
}

/// Splits the bytes of a file into its lines.
pub fn split_bytes(s: &[u8]) -> (r: Vec<Vec<u8>>)
    ensures
        byte_views(r@) == byte_lines(s@),
{
    let mut r: Vec<Vec<u8>> = Vec::new();
    let mut line: Vec<u8> = Vec::new();
    let ghost mut start: int = 0;
    let mut i: usize = 0;
    assert(s@.skip(0) =~= s@);
    while i < s.len()
        invariant
            0 <= start <= i <= s.len(),
            line@ == s@.subrange(start, i as int),
            forall|j: int| start <= j < i ==> #[trigger] s@[j] != 10u8,
            byte_views(r@) + lines_of(s@.skip(start), 10u8, 13u8) == byte_lines(s@),
        decreases s.len() - i,
    {
        let b: u8 = s[i];
        if b == 10 {
            proof {
                lemma_first_line(s@, start, i as int, 10u8, 13u8);
            }
            let ghost before = r@;
            let ghost whole = line@;
            if line.len() > 0 && line[line.len() - 1] == 13 {
                line.pop();
            }
            assert(line@ =~= strip_return(whole, 13u8));
            r.push(line);
            assert(byte_views(r@) =~= byte_views(before).push(strip_return(whole, 13u8)));
            line = Vec::new();
            proof {
                start = i + 1;
                assert(byte_views(before) + (seq![strip_return(whole, 13u8)] + lines_of(
                    s@.skip(start),
                    10u8,
                    13u8,
                )) =~= byte_views(r@) + lines_of(s@.skip(start), 10u8, 13u8));
            }
            assert(line@ =~= s@.subrange(start, i + 1));
        } else {
            line.push(b);
            assert(line@ =~= s@.subrange(start, i + 1));
        }
        i = i + 1;
    }
    proof {
        lemma_last_line(s@, start, 10u8, 13u8);
        assert(s@.subrange(start, i as int) =~= s@.skip(start));
    }
    let ghost before = r@;
    if line.len() > 0 {
        r.push(line);
        assert(byte_views(r@) =~= byte_views(before).push(s@.skip(start)));
    }
    assert(byte_views(r@) =~= byte_lines(s@));
    r
}

/// Splits a text into its lines.
pub fn split_text(s: &str) -> (r: Vec<String>)
    ensures
        views(r@) == text_lines(s@),
{
    let chars = characters(s);
    let mut r: Vec<String> = Vec::new();
    let mut start: usize = 0;
    let mut i: usize = 0;
    assert(s@.skip(0) =~= s@);
    while i < chars.len()
        invariant
            chars@ == s@,
            start <= i <= chars.len(),
            forall|j: int| start <= j < i ==> #[trigger] s@[j] != '\n',
            views(r@) + lines_of(s@.skip(start as int), '\n', '\r') == text_lines(s@),
        decreases chars.len() - i,
    {
        if chars[i] == '\n' {
            proof {
                lemma_first_line(s@, start as int, i as int, '\n', '\r');
            }
            let ghost before = r@;
            let ghost whole = s@.subrange(start as int, i as int);
            let end: usize = if start < i && chars[i - 1] == '\r' {
                i - 1
            } else {
                i
            };
            let line = s.substring_char(start, end).to_string();
            assert(line@ =~= strip_return(whole, '\r'));
            r.push(line);
            assert(views(r@) =~= views(before).push(strip_return(whole, '\r')));
            start = i + 1;
            assert(views(before) + (seq![strip_return(whole, '\r')] + lines_of(
                s@.skip(start as int),
                '\n',
                '\r',
            )) =~= views(r@) + lines_of(s@.skip(start as int), '\n', '\r'));
        }
        i = i + 1;
    }
    proof {
        lemma_last_line(s@, start as int, '\n', '\r');
        assert(s@.subrange(start as int, i as int) =~= s@.skip(start as int));
    }
    let ghost before = r@;
    if start < chars.len() {
        r.push(s.substring_char(start, chars.len()).to_string());
        assert(views(r@) =~= views(before).push(s@.skip(start as int)));
    }
    assert(views(r@) =~= text_lines(s@));
    r
}

/// Puts lines together, with one line feed between two of them.
pub fn join_lines(lines: &Vec<String>) -> (r: String)
    ensures
        r@ == joined(views(lines@)),
{
    if lines.len() == 0 {
        return String::new();
    }
    let mut i: usize = lines.len() - 1;
    let mut r = lines[i].clone();
    assert(views(lines@).skip(i as int) =~= seq![lines@[i as int]@]);
    while i > 0
        invariant
            i < lines.len(),
            r@ == joined(views(lines@).skip(i as int)),
        decreases i,
    {
        let ghost rest = views(lines@).skip(i as int);
        i = i - 1;
        r = lines[i].clone().concat("\n").concat(r.as_str());
        proof {
            reveal_strlit("\n");
            assert("\n"@ =~= seq!['\n']);
            assert(views(lines@).skip(i as int).drop_first() =~= rest);
        }
    }
    assert(views(lines@).skip(0) =~= views(lines@));
    r
}

/// The decimal digit for `d`, as a text.
fn digit_text(d: u32) -> (r: &'static str)
    requires
        d < 10,
    ensures
        r@ == seq![digit(d as nat)],
{
    proof {
        reveal_strlit("0");
        reveal_strlit("1");
        reveal_strlit("2");
        reveal_strlit("3");
        reveal_strlit("4");
        reveal_strlit("5");
        reveal_strlit("6");
        reveal_strlit("7");
        reveal_strlit("8");
        reveal_strlit("9");
    }
    let r = match d {
        0 => "0",
        1 => "1",
        2 => "2",
        3 => "3",
        4 => "4",
        5 => "5",
        6 => "6",
        7 => "7",
        8 => "8",
        _ => "9",
    };
    assert(r@ =~= seq![digit(d as nat)]);
    r
}

/// Writes `n` in decimal.
pub fn decimal_text(n: u32) -> (r: String)
    ensures
        r@ == decimal(n as nat),
    decreases n,
{
    if n < 10 {
        digit_text(n).to_string()
    } else {
        let r = decimal_text(n / 10).concat(digit_text(n % 10));
        assert(r@ =~= decimal((n / 10) as nat).push(digit((n % 10) as nat)));
        r
    }
}

/// More digits stand for a number at least as large.
proof fn lemma_digits_value_grows(s: Seq<char>, i: int)
    requires
        0 <= i <= s.len(),
    ensures
        digits_value(s.take(i)) <= digits_value(s),
    decreases s.len(),
{
    if i < s.len() {
        lemma_digits_value_grows(s.drop_last(), i);
        assert(s.drop_last().take(i) =~= s.take(i));
    } else {
        assert(s.take(i) =~= s);
    }
}

/// Reads a number in decimal.
pub fn parse_number(s: &str) -> (r: Option<u32>)
    ensures
        r == number(s@),
{
    let chars = characters(s);
    let start: usize = if chars.len() > 0 && chars[0] == '+' {
        1
    } else {
        0
    };
    let ghost digits = unsigned_part(s@);
    assert(digits =~= s@.skip(start as int));
    if start == chars.len() {
        return None;
    }
    let mut value: u32 = 0;
    let mut i: usize = start;
    assert(digits.take(0) =~= seq![]);
    while i < chars.len()
        invariant
            chars@ == s@,
            start <= i <= chars.len(),
            digits == s@.skip(start as int),
            digits == unsigned_part(s@),
            forall|j: int| 0 <= j < i - start ==> is_digit(#[trigger] digits[j]),
            value == digits_value(digits.take(i - start)),
        decreases chars.len() - i,
    {
        let c: char = chars[i];
        assert(c == digits[i - start]);
        if !('0' <= c && c <= '9') {
            return None;
        }
        let d: u32 = c as u32 - '0' as u32;
        proof {
            assert(digits.take(i - start + 1).drop_last() =~= digits.take(i - start));
            lemma_digits_value_grows(digits, i - start + 1);
        }
        if value > (u32::MAX - d) / 10 {
            return None;
        }
        value = value * 10 + d;
        i = i + 1;
    }
    assert(digits.take(i - start) =~= digits);
    Some(value)
}

/// Reading back what was written in decimal gives the same number.
pub proof fn law_decimal_reads_back(n: u32)
    ensures
        number(decimal(n as nat)) == Some(n),
{
    lemma_decimal(n as nat);
    assert(is_digit(decimal(n as nat)[0]));
}

/// A number in decimal is one or more digits, without a zero in front but for zero itself.
pub proof fn law_decimal_is_digits(n: nat)
    ensures
        decimal(n).len() > 0,
        forall|i: int| 0 <= i < decimal(n).len() ==> '0' <= #[trigger] decimal(n)[i] <= '9',
        n > 0 ==> decimal(n)[0] != '0',
        n == 0 ==> decimal(n) == seq!['0'],
    decreases n,
{
    lemma_decimal(n);
    if n >= 10 {
        law_decimal_is_digits(n / 10);
    }
}

/// A text with anything but digits in it, a plus sign in front aside, is no number, nor is
/// one without a digit. A plus sign in front does not matter.
pub proof fn law_only_digits_are_numbers(s: Seq<char>, i: int)
    ensures
        0 < i < s.len() && !('0' <= s[i] <= '9') ==> number(s) is None,
        s.len() > 0 && s[0] != '+' && !('0' <= s[0] <= '9') ==> number(s) is None,
        number(Seq::<char>::empty()) is None,
        number(seq!['+']) is None,
        s.len() > 0 && s[0] != '+' ==> number(seq!['+'] + s) == number(s),
{
    assert(seq!['+'].drop_first() =~= seq![]);
    assert((seq!['+'] + s).drop_first() =~= s);
    if 0 < i < s.len() && !('0' <= s[i] <= '9') {
        let digits = unsigned_part(s);
        let at = if s[0] == '+' {
            i - 1
        } else {
            i
        };
        assert(digits[at] == s[i]);
        assert(!is_digit(digits[at]));
    }
    if s.len() > 0 && s[0] != '+' && !('0' <= s[0] <= '9') {
        assert(!is_digit(unsigned_part(s)[0]));
    }
}

/// A number in decimal is one or more digits, which stand for it.
proof fn lemma_decimal(n: nat)
    ensures
        decimal(n).len() > 0,
        forall|i: int| 0 <= i < decimal(n).len() ==> is_digit(#[trigger] decimal(n)[i]),
        digits_value(decimal(n)) == n,
    decreases n,
{
    if n < 10 {
        assert(decimal(n).drop_last() =~= seq![]);
        assert(digits_value(decimal(n).drop_last()) == 0);
    } else {
        lemma_decimal(n / 10);
        assert(decimal(n).drop_last() =~= decimal(n / 10));
    }
}

/// UTF-16 goes character by character: one below the surrogates' reach is its own unit, and
/// any other is a high and a low surrogate that stand for it.
pub proof fn law_utf16_stands_for_the_characters(a: Seq<char>, c: char)
    ensures
        utf16(Seq::<char>::empty()).len() == 0,
        utf16(a.push(c)) == utf16(a) + utf16_units(c),
        (c as u32) < 0x10000 ==> utf16_units(c).len() == 1 && utf16_units(c)[0] as int == c as int,
        (c as u32) >= 0x10000 ==> {
            let units = utf16_units(c);
            &&& units.len() == 2
            &&& 0xd800 <= units[0] < 0xdc00 && 0xdc00 <= units[1] < 0xe000
            &&& 0x10000 + (units[0] - 0xd800) * 0x400 + (units[1] - 0xdc00) == c as int
        },
{
    assert(a.push(c).drop_last() =~= a);
}

/// `s` in UTF-16, followed by a zero unit.
pub fn wide_text(s: &str) -> (r: Vec<u16>)
    ensures
        r@ == utf16(s@).push(0u16),
{
    let chars = characters(s);
    let mut r: Vec<u16> = Vec::new();
    let mut i: usize = 0;
    assert(s@.take(0) =~= seq![]);
    while i < chars.len()
        invariant
            chars@ == s@,
            i <= chars.len(),
            r@ == utf16(s@.take(i as int)),
        decreases chars.len() - i,
    {
        let v: u32 = chars[i] as u32;
        let ghost before = r@;
        if v < 0x10000 {
            r.push(v as u16);
        } else {
            let high: u16 = (0xd800 + (v - 0x10000) / 0x400) as u16;
            let low: u16 = (0xdc00 + (v - 0x10000) % 0x400) as u16;
            r.push(high);
            r.push(low);
        }
        assert(r@ =~= before + utf16_units(chars@[i as int]));
        assert(s@.take(i + 1).drop_last() =~= s@.take(i as int));
        i = i + 1;
    }
    assert(s@.take(i as int) =~= s@);
    r.push(0);
    r
}

} // verus!
