//! Text as JSON.

use vstd::prelude::*;

verus! {

/// One digit of a hexadecimal number.
pub open spec fn hex_char(d: u32) -> char {
    if d < 10 {
        (('0' as u32) + d) as char
    } else {
        (('a' as u32) + (d - 10)) as char
    }
}

/// How a character is written inside a JSON string.
pub open spec fn json_char(c: char) -> Seq<char> {
    if c == '"' || c == '\\' {
        seq!['\\', c]
    } else if c == '\u{8}' {
        seq!['\\', 'b']
    } else if c == '\u{9}' {
        seq!['\\', 't']
    } else if c == '\u{a}' {
        seq!['\\', 'n']
    } else if c == '\u{c}' {
        seq!['\\', 'f']
    } else if c == '\u{d}' {
        seq!['\\', 'r']
    } else if (c as u32) < 0x20 {
        seq!['\\', 'u', '0', '0', hex_char(c as u32 / 16), hex_char(c as u32 % 16)]
    } else {
        seq![c]
    }
}

/// The characters of `text` as they are written inside a JSON string.
pub open spec fn json_chars(text: Seq<char>) -> Seq<char>
    decreases text.len(),
{
    if text.len() == 0 {
        seq![]
    } else {
        json_char(text[0]) + json_chars(text.drop_first())
    }
}

/// `text` as a JSON string.
pub open spec fn json_string(text: Seq<char>) -> Seq<char> {
    seq!['"'] + json_chars(text) + seq!['"']
}

/// `serde_json::to_string` on text. It puts the text in quotes and escapes quotes,
/// backslashes and control characters; it writes to memory and does not fail. No
/// character takes more than six bytes, and the buffer at most doubles as it grows.
#[verifier::external_body]
pub(crate) fn to_json_string(text: &str) -> (r: Option<String>)
    requires
        2 * (6 * text@.len() + 2) <= isize::MAX,
    ensures
        r is Some,
        r->0@ == json_string(text@),
{
    serde_json::to_string(text).ok()
}

/// The JSON form of text is never shorter than the text.
pub(crate) proof fn lemma_json_is_no_shorter(text: Seq<char>)
    ensures
        json_chars(text).len() >= text.len(),
    decreases text.len(),
{
    if text.len() > 0 {
        lemma_json_is_no_shorter(text.drop_first());
    }
}

/// Two characters that are written alike, whatever follows them, are the same; and
/// no character is written like a closing quote.
proof fn lemma_json_char_is_prefix_free(a: char, b: char, x: Seq<char>, y: Seq<char>)
    ensures
        json_char(a)[0] != '"',
        json_char(a) + x == json_char(b) + y ==> a == b && x == y,
{
    let (p, q) = (json_char(a), json_char(b));
    if p + x == q + y {
        assert((p + x)[0] == p[0] && (q + y)[0] == q[0]);
        if p.len() > 1 {
            assert((p + x)[1] == p[1]);
        }
        if q.len() > 1 {
            assert((q + y)[1] == q[1]);
        }
        if p.len() == 6 {
            assert((p + x)[4] == p[4] && (p + x)[5] == p[5]);
        }
        if q.len() == 6 {
            assert((q + y)[4] == q[4] && (q + y)[5] == q[5]);
        }
        assert(a == b);
        assert((p + x).skip(p.len() as int) =~= x);
        assert((q + y).skip(q.len() as int) =~= y);
    }
}

/// A JSON string tells where it ends: two that are followed by something and read
/// the same are the same, and so is what follows.
pub(crate) proof fn lemma_json_string_is_prefix_free(
    a: Seq<char>,
    b: Seq<char>,
    x: Seq<char>,
    y: Seq<char>,
)
    requires
        json_chars(a) + seq!['"'] + x == json_chars(b) + seq!['"'] + y,
    ensures
        a == b,
        x == y,
    decreases a.len(),
{
    let left = json_chars(a) + seq!['"'] + x;
    let right = json_chars(b) + seq!['"'] + y;
    if a.len() == 0 && b.len() == 0 {
        assert(left.skip(1) =~= x);
        assert(right.skip(1) =~= y);
        assert(a =~= b);
    } else if a.len() == 0 {
        lemma_json_char_is_prefix_free(b[0], b[0], x, y);
        assert(left[0] == '"');
        assert(right[0] == json_char(b[0])[0]);
    } else if b.len() == 0 {
        lemma_json_char_is_prefix_free(a[0], a[0], x, y);
        assert(right[0] == '"');
        assert(left[0] == json_char(a[0])[0]);
    } else {
        let (ta, tb) = (a.drop_first(), b.drop_first());
        let (l, r) = (json_chars(ta) + seq!['"'] + x, json_chars(tb) + seq!['"'] + y);
        assert(left =~= json_char(a[0]) + l);
        assert(right =~= json_char(b[0]) + r);
        lemma_json_char_is_prefix_free(a[0], b[0], l, r);
        lemma_json_string_is_prefix_free(ta, tb, x, y);
        assert(a =~= seq![a[0]] + ta);
        assert(b =~= seq![b[0]] + tb);
    }
}

} // verus!
