use vstd::prelude::*;

use vstd::string::is_ascii;

verus! {

/// The ASCII byte of a payload character.
pub open spec fn ascii_byte(c: char) -> u8 {
    (c as u32) as u8
}

/// One character of payload text as it stands inside a JSON string literal:
/// a quote or backslash gains a leading backslash, anything else is its own
/// ASCII byte.
pub open spec fn json_escaped_char(c: char) -> Seq<u8> {
    if c == '"' || c == '\\' {
        seq![92u8, ascii_byte(c)]
    } else {
        seq![ascii_byte(c)]
    }
}

/// Payload text escaped for a JSON string literal, character by character.
pub open spec fn json_escaped_text(s: Seq<char>) -> Seq<u8>
    decreases s.len(),
{
    if s.len() == 0 {
        Seq::empty()
    } else {
        json_escaped_text(s.drop_last()) + json_escaped_char(s.last())
    }
}

/// A JSON string literal: a quote, the escaped text, a quote.
pub open spec fn json_quoted(s: Seq<char>) -> Seq<u8> {
    seq![34u8] + json_escaped_text(s) + seq![34u8]
}

/// The serialized object `{"<key>":"<value>"}`.
pub open spec fn json_object1(key: Seq<char>, value: Seq<char>) -> Seq<u8> {
    seq![123u8] + json_quoted(key) + seq![58u8] + json_quoted(value) + seq![125u8]
}

/// The serialized object `{"<k1>":"<v1>","<k2>":"<v2>"}`.
pub open spec fn json_object2(k1: Seq<char>, v1: Seq<char>, k2: Seq<char>, v2: Seq<char>) -> Seq<
    u8,
> {
    seq![123u8] + json_quoted(k1) + seq![58u8] + json_quoted(v1) + seq![44u8] + json_quoted(k2)
        + seq![58u8] + json_quoted(v2) + seq![125u8]
}

/// Appends the JSON string literal for `s` to `out`.
fn push_quoted(out: &mut Vec<u8>, s: &str)
    requires
        is_ascii(s),
    ensures
        final(out)@ == old(out)@ + json_quoted(s@),
{
    out.push(34);
    let n = s.unicode_len();
    let mut i: usize = 0;
    while i < n
        invariant
            is_ascii(s),
            n == s@.len(),
            0 <= i <= n,
            out@ == old(out)@ + seq![34u8] + json_escaped_text(s@.take(i as int)),
        decreases n - i,
    {
        let c = s.get_char(i);
        let code = c as u32;
        let b = code as u8;
        if b == 34 || b == 92 {
            out.push(92);
        }
        out.push(b);
        proof {
            assert(s@.take(i + 1).drop_last() =~= s@.take(i as int));
            assert(s@.take(i + 1).last() == s@[i as int]);
            assert(out@ =~= old(out)@ + seq![34u8] + json_escaped_text(s@.take(i + 1)));
        }
        i = i + 1;
    }
    out.push(34);
    proof {
        assert(s@.take(n as int) =~= s@);
        assert(out@ =~= old(out)@ + json_quoted(s@));
    }
}

/// The serialized payload for a remote method taking one string field.
pub fn encode_object1(key: &str, value: &str) -> (r: Vec<u8>)
    requires
        is_ascii(key),
        is_ascii(value),
    ensures
        r@ == json_object1(key@, value@),
{
    let mut out: Vec<u8> = Vec::new();
    out.push(123);
    push_quoted(&mut out, key);
    out.push(58);
    push_quoted(&mut out, value);
    out.push(125);
    proof {
        assert(out@ =~= json_object1(key@, value@));
    }
    out
}

/// The serialized payload for a remote method taking two string fields.
pub fn encode_object2(k1: &str, v1: &str, k2: &str, v2: &str) -> (r: Vec<u8>)
    requires
        is_ascii(k1),
        is_ascii(v1),
        is_ascii(k2),
        is_ascii(v2),
    ensures
        r@ == json_object2(k1@, v1@, k2@, v2@),
{
    let mut out: Vec<u8> = Vec::new();
    out.push(123);
    push_quoted(&mut out, k1);
    out.push(58);
    push_quoted(&mut out, v1);
    out.push(44);
    push_quoted(&mut out, k2);
    out.push(58);
    push_quoted(&mut out, v2);
    out.push(125);
    proof {
        assert(out@ =~= json_object2(k1@, v1@, k2@, v2@));
    }
    out
}

} // verus!
