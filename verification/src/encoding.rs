//! Lines and UTF-8: the lines of an encoded text are the encoded lines of the text.

use vstd::prelude::*;
use vstd::utf8::{decode_utf8, decode_utf8_encode_utf8, encode_scalar, encode_utf8, valid_utf8};

use crate::text::{
    byte_lines, lemma_position, lemma_position_is, position, strip_return, text_lines,
};

verus! {

/// An ASCII character is encoded as itself; no byte of another character is ASCII.
proof fn lemma_encode_scalar(c: char)
    ensures
        encode_scalar(c as u32).len() > 0,
        (c as u32) < 0x80 ==> encode_scalar(c as u32).len() == 1 && encode_scalar(c as u32)[0] as int
            == c as int,
        (c as u32) >= 0x80 ==> forall|i: int|
            0 <= i < encode_scalar(c as u32).len() ==> #[trigger] encode_scalar(c as u32)[i] >= 0x80,
{
    let v = c as u32;
    assert(v <= 0x7f ==> (v & 0x7f) as u8 == v) by (bit_vector);
    assert(0xc0u8 | ((v >> 6) & 0x1f) as u8 >= 0x80) by (bit_vector);
    assert(0xe0u8 | ((v >> 12) & 0x0f) as u8 >= 0x80) by (bit_vector);
    assert(0xf0u8 | ((v >> 18) & 0x7) as u8 >= 0x80) by (bit_vector);
    assert(0x80u8 | (v & 0x3f) as u8 >= 0x80) by (bit_vector);
    assert(0x80u8 | ((v >> 6) & 0x3f) as u8 >= 0x80) by (bit_vector);
    assert(0x80u8 | ((v >> 12) & 0x3f) as u8 >= 0x80) by (bit_vector);
}

/// Encoding goes piece by piece.
pub proof fn lemma_encode_concat(a: Seq<char>, b: Seq<char>)
    ensures
        encode_utf8(a + b) == encode_utf8(a) + encode_utf8(b),
    decreases a.len(),
{
    if a.len() == 0 {
        assert(a + b =~= b);
        assert(encode_utf8(a) + encode_utf8(b) =~= encode_utf8(b));
    } else {
        lemma_encode_concat(a.drop_first(), b);
        assert((a + b).drop_first() =~= a.drop_first() + b);
        assert(encode_utf8(a + b) =~= encode_utf8(a) + encode_utf8(b));
    }
}

/// The encoding of one character.
proof fn lemma_encode_one(c: char)
    ensures
        encode_utf8(seq![c]) == encode_scalar(c as u32),
{
    assert(seq![c].drop_first() =~= seq![]);
    assert(encode_utf8(seq![c].drop_first()) =~= seq![]);
    assert(encode_utf8(seq![c]) =~= encode_scalar(c as u32));
}

/// A text without the line feed is encoded without its byte.
proof fn lemma_encode_no_feed(s: Seq<char>)
    requires
        !s.contains('\n'),
    ensures
        forall|i: int| 0 <= i < encode_utf8(s).len() ==> #[trigger] encode_utf8(s)[i] != 10u8,
    decreases s.len(),
{
    if s.len() > 0 {
        let first = encode_scalar(s[0] as u32);
        let rest = encode_utf8(s.drop_first());
        assert(s.contains(s[0]));
        lemma_encode_scalar(s[0]);
        assert(!s.drop_first().contains('\n')) by {
            assert forall|i: int| 0 <= i < s.drop_first().len() implies s.drop_first()[i]
                != '\n' by {
                assert(s.contains(s[i + 1]));
            }
        }
        lemma_encode_no_feed(s.drop_first());
        assert forall|i: int| 0 <= i < encode_utf8(s).len() implies #[trigger] encode_utf8(s)[i]
            != 10u8 by {
            if i < first.len() {
                assert(encode_utf8(s)[i] == first[i]);
            } else {
                assert(encode_utf8(s)[i] == rest[i - first.len()]);
            }
        }
    }
}

/// Bytes without that of the line feed encode a text without it.
pub proof fn lemma_decode_no_feed(bytes: Seq<u8>)
    requires
        valid_utf8(bytes),
        !bytes.contains(10u8),
    ensures
        !decode_utf8(bytes).contains('\n'),
{
    let s = decode_utf8(bytes);
    decode_utf8_encode_utf8(bytes);
    if s.contains('\n') {
        let i = choose|i: int| 0 <= i < s.len() && s[i] == '\n';
        let before = s.take(i);
        let after = s.skip(i + 1);
        assert(s =~= before + (seq!['\n'] + after));
        lemma_encode_concat(before, seq!['\n'] + after);
        lemma_encode_concat(seq!['\n'], after);
        lemma_encode_one('\n');
        lemma_encode_scalar('\n');
        assert(bytes[encode_utf8(before).len() as int] == 10u8);
    }
}

/// Stripping a carriage return and encoding can be done in either order.
proof fn lemma_encode_strip(s: Seq<char>)
    ensures
        strip_return(encode_utf8(s), 13u8) == encode_utf8(strip_return(s, '\r')),
{
    if s.len() > 0 {
        let last = encode_scalar(s.last() as u32);
        assert(s =~= s.drop_last() + seq![s.last()]);
        lemma_encode_concat(s.drop_last(), seq![s.last()]);
        lemma_encode_one(s.last());
        lemma_encode_scalar(s.last());
        let bytes = encode_utf8(s);
        assert(bytes == encode_utf8(s.drop_last()) + last);
        assert(bytes.last() == last.last());
        if s.last() == '\r' {
            assert(last =~= seq![13u8]);
            assert(bytes.drop_last() =~= encode_utf8(s.drop_last()));
        } else {
            assert(last.last() != 13u8) by {
                if (s.last() as u32) >= 0x80 {
                    assert(last[last.len() - 1] >= 0x80);
                }
            }
        }
    } else {
        assert(encode_utf8(s) =~= seq![]);
    }
}

/// The lines of an encoded text are the encoded lines of the text.
pub proof fn lemma_encoded_lines(s: Seq<char>)
    ensures
        byte_lines(encode_utf8(s)) == text_lines(s).map_values(|l: Seq<char>| encode_utf8(l)),
    decreases s.len(),
{
    let bytes = encode_utf8(s);
    let mapped = text_lines(s).map_values(|l: Seq<char>| encode_utf8(l));
    if s.len() == 0 {
        assert(byte_lines(bytes) =~= mapped);
    } else {
        lemma_position(s, '\n');
        let p = position(s, '\n') as int;
        let line = s.take(p);
        assert(!line.contains('\n'));
        lemma_encode_no_feed(line);
        lemma_encode_scalar(s[0]);
        assert(bytes.len() > 0);
        if p == s.len() {
            assert(line =~= s);
            lemma_position_is(bytes, 10u8, bytes.len() as int);
            assert(byte_lines(bytes) =~= mapped);
        } else {
            let rest = s.skip(p + 1);
            assert(s =~= line + (seq!['\n'] + rest));
            lemma_encode_concat(line, seq!['\n'] + rest);
            lemma_encode_concat(seq!['\n'], rest);
            lemma_encode_one('\n');
            lemma_encode_scalar('\n');
            let head = encode_utf8(line);
            assert(bytes =~= head + (seq![10u8] + encode_utf8(rest)));
            assert(bytes[head.len() as int] == 10u8);
            assert forall|i: int| 0 <= i < head.len() implies #[trigger] bytes[i] != 10u8 by {
                assert(bytes[i] == head[i]);
            }
            lemma_position_is(bytes, 10u8, head.len() as int);
            assert(bytes.take(head.len() as int) =~= head);
            assert(bytes.skip(head.len() + 1int) =~= encode_utf8(rest));
            lemma_encode_strip(line);
            lemma_encoded_lines(rest);
            assert(byte_lines(bytes) == seq![strip_return(head, 13u8)] + byte_lines(
                encode_utf8(rest),
            ));
            assert(text_lines(s) == seq![strip_return(line, '\r')] + text_lines(rest));
            assert(byte_lines(bytes) =~= mapped);
        }
    }
}

} // verus!
