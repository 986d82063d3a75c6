//! The result emitter: the goals as one payload, and the payload as the
//! address that carries it across the boundary.
//!
//! The payload is a JSON array of objects with the keys `id`, `title`,
//! `completed` and `parentId`, in this order and without white space; a goal
//! without a parent has `null` there. The address is the origin of the
//! receiving side, `?data=`, and the payload with every byte of its UTF-8
//! form percent-escaped that is not a letter, a digit or one of
//! `- _ . ! ~ * ' ( )`.

use vstd::prelude::*;
use vstd::utf8::{encode_utf8, is_ascii_chars, is_ascii_chars_encode_utf8};
use crate::chars::chars_of;
use crate::model::{Goal, GoalView};

verus! {

/// The character for the hexadecimal digit `d`, in lower case.
pub open spec fn lower_hex(d: int) -> char {
    if d == 10 {
        'a'
    } else if d == 11 {
        'b'
    } else if d == 12 {
        'c'
    } else if d == 13 {
        'd'
    } else if d == 14 {
        'e'
    } else if d == 15 {
        'f'
    } else {
        crate::ident::digit_char(d)
    }
}

/// The character for the hexadecimal digit `d`, in upper case.
pub open spec fn upper_hex(d: int) -> char {
    if d == 10 {
        'A'
    } else if d == 11 {
        'B'
    } else if d == 12 {
        'C'
    } else if d == 13 {
        'D'
    } else if d == 14 {
        'E'
    } else if d == 15 {
        'F'
    } else {
        crate::ident::digit_char(d)
    }
}

/// How the character `c` stands inside a JSON string: the quotation mark and
/// the reverse solidus behind a reverse solidus, a control character by its
/// short name or, where it has none, by its code in four hexadecimal digits,
/// and any other character as it is.
pub open spec fn json_char(c: char) -> Seq<char> {
    if c == '"' {
        seq!['\\', '"']
    } else if c == '\\' {
        seq!['\\', '\\']
    } else if c == '\u{08}' {
        seq!['\\', 'b']
    } else if c == '\u{0C}' {
        seq!['\\', 'f']
    } else if c == '\n' {
        seq!['\\', 'n']
    } else if c == '\r' {
        seq!['\\', 'r']
    } else if c == '\t' {
        seq!['\\', 't']
    } else if (c as u32) < 0x20 {
        seq!['\\', 'u', '0', '0', lower_hex((c as u32) as int / 16), lower_hex((c as u32) as int % 16)]
    } else {
        seq![c]
    }
}

/// The characters of `s` as they stand inside a JSON string.
pub open spec fn json_escaped(s: Seq<char>) -> Seq<char>
    decreases s.len(),
{
    if s.len() == 0 {
        Seq::empty()
    } else {
        json_escaped(s.drop_last()) + json_char(s.last())
    }
}

/// `s` as a JSON string.
pub open spec fn json_string(s: Seq<char>) -> Seq<char> {
    seq!['"'] + json_escaped(s) + seq!['"']
}

/// A goal as a JSON object.
pub open spec fn json_goal(g: GoalView) -> Seq<char> {
    "{\"id\":"@ + json_string(g.id) + ",\"title\":"@ + json_string(g.title) + ",\"completed\":"@
        + (if g.completed {
        "true"@
    } else {
        "false"@
    }) + ",\"parentId\":"@ + (match g.parent_id {
        Some(p) => json_string(p),
        None => "null"@,
    }) + "}"@
}

/// The first `n` goals as JSON objects with commas between them.
pub open spec fn json_members(goals: Seq<GoalView>, n: int) -> Seq<char>
    decreases n,
{
    if n <= 0 || n > goals.len() {
        Seq::empty()
    } else if n == 1 {
        json_goal(goals[0])
    } else {
        json_members(goals, n - 1) + ","@ + json_goal(goals[n - 1])
    }
}

/// The payload: the goals as a JSON array.
pub open spec fn payload_of(goals: Seq<GoalView>) -> Seq<char> {
    "["@ + json_members(goals, goals.len() as int) + "]"@
}

/// Whether the byte `b` stands for itself in the address.
pub open spec fn is_unreserved(b: u8) -> bool {
    ||| 0x41 <= b <= 0x5A
    ||| 0x61 <= b <= 0x7A
    ||| 0x30 <= b <= 0x39
    ||| b == 0x2D
    ||| b == 0x5F
    ||| b == 0x2E
    ||| b == 0x21
    ||| b == 0x7E
    ||| b == 0x2A
    ||| b == 0x27
    ||| b == 0x28
    ||| b == 0x29
}

/// How the byte `b` stands in the address: as itself, or as a percent sign
/// and its two hexadecimal digits in upper case.
pub open spec fn escaped_byte(b: u8) -> Seq<char> {
    if is_unreserved(b) {
        seq![b as char]
    } else {
        seq!['%', upper_hex(b as int / 16), upper_hex(b as int % 16)]
    }
}

/// The bytes `bytes` as they stand in the address.
pub open spec fn escaped_bytes(bytes: Seq<u8>) -> Seq<char>
    decreases bytes.len(),
{
    if bytes.len() == 0 {
        Seq::empty()
    } else {
        escaped_bytes(bytes.drop_last()) + escaped_byte(bytes.last())
    }
}

/// The text `s` percent-escaped: the bytes of its UTF-8 form as they stand
/// in the address.
pub open spec fn percent_escaped(s: Seq<char>) -> Seq<char> {
    escaped_bytes(encode_utf8(s))
}

/// The origin of the side that receives the payload.
pub open spec fn receiving_origin() -> Seq<char> {
    "http://localhost:19837"@
}

/// The address that carries the payload `payload`.
pub open spec fn address_of(payload: Seq<char>) -> Seq<char> {
    receiving_origin() + "?data="@ + percent_escaped(payload)
}

/// The address that carries the goals `goals`.
pub open spec fn delivery_of(goals: Seq<GoalView>) -> Seq<char> {
    address_of(payload_of(goals))
}

/// A character that an address can hold without ending or splitting it: a
/// character that stands for itself, the percent sign, or a hexadecimal
/// digit in upper case.
pub open spec fn is_address_char(c: char) -> bool {
    ||| 'A' <= c <= 'Z'
    ||| 'a' <= c <= 'z'
    ||| '0' <= c <= '9'
    ||| c == '-'
    ||| c == '_'
    ||| c == '.'
    ||| c == '!'
    ||| c == '~'
    ||| c == '*'
    ||| c == '\''
    ||| c == '('
    ||| c == ')'
    ||| c == '%'
}

/// Whatever is escaped, the outcome holds address characters only: no
/// quotation mark, no ampersand, no equals sign, no white space.
pub proof fn lemma_escaped_is_plain(bytes: Seq<u8>)
    ensures
        forall|i: int|
            0 <= i < escaped_bytes(bytes).len() ==> is_address_char(#[trigger] escaped_bytes(bytes)[i]),
    decreases bytes.len(),
{
    if bytes.len() > 0 {
        lemma_escaped_is_plain(bytes.drop_last());
        let b = bytes.last();
        let head = escaped_bytes(bytes.drop_last());
        let tail = escaped_byte(b);
        assert forall|i: int| 0 <= i < tail.len() implies is_address_char(#[trigger] tail[i]) by {
            if is_unreserved(b) {
                assert(tail[0] == b as char);
            } else {
                assert(0 <= b as int / 16 < 16 && 0 <= b as int % 16 < 16);
            }
        }
        assert forall|i: int| 0 <= i < escaped_bytes(bytes).len() implies is_address_char(
            #[trigger] escaped_bytes(bytes)[i],
        ) by {
            if i < head.len() {
                assert(escaped_bytes(bytes)[i] == head[i]);
            } else {
                assert(escaped_bytes(bytes)[i] == tail[i - head.len()]);
            }
        }
    }
}

/// The payload without goals is the empty array.
pub proof fn lemma_empty_payload()
    ensures
        payload_of(Seq::empty()) == "[]"@,
{
    reveal_strlit("[");
    reveal_strlit("]");
    reveal_strlit("[]");
    assert(payload_of(Seq::empty()) =~= "[]"@);
}

/// The empty payload travels as `%5B%5D`.
pub proof fn lemma_empty_delivery()
    ensures
        address_of("[]"@) == "http://localhost:19837?data=%5B%5D"@,
{
    reveal_strlit("[]");
    reveal_strlit("http://localhost:19837");
    reveal_strlit("?data=");
    reveal_strlit("http://localhost:19837?data=%5B%5D");
    let chars = "[]"@;
    assert(chars =~= seq!['[', ']']);
    assert(is_ascii_chars(chars));
    is_ascii_chars_encode_utf8(chars);
    let bytes = encode_utf8(chars);
    assert(bytes =~= seq![0x5Bu8, 0x5Du8]);
    reveal_with_fuel(escaped_bytes, 3);
    assert(bytes.drop_last() =~= seq![0x5Bu8]);
    assert(bytes.drop_last().drop_last() =~= Seq::<u8>::empty());
    assert(escaped_byte(0x5Bu8) =~= seq!['%', '5', 'B']);
    assert(escaped_byte(0x5Du8) =~= seq!['%', '5', 'D']);
    assert(escaped_bytes(bytes) =~= seq!['%', '5', 'B', '%', '5', 'D']);
    assert(address_of(chars) =~= "http://localhost:19837?data=%5B%5D"@);
}

fn hex_lower(d: u32) -> (c: char)
    requires
        d < 16,
    ensures
        c == lower_hex(d as int),
{
    if d == 0 {
        '0'
    } else if d == 1 {
        '1'
    } else if d == 2 {
        '2'
    } else if d == 3 {
        '3'
    } else if d == 4 {
        '4'
    } else if d == 5 {
        '5'
    } else if d == 6 {
        '6'
    } else if d == 7 {
        '7'
    } else if d == 8 {
        '8'
    } else if d == 9 {
        '9'
    } else if d == 10 {
        'a'
    } else if d == 11 {
        'b'
    } else if d == 12 {
        'c'
    } else if d == 13 {
        'd'
    } else if d == 14 {
        'e'
    } else {
        'f'
    }
}

fn hex_upper(d: u8) -> (c: char)
    requires
        d < 16,
    ensures
        c == upper_hex(d as int),
{
    if d == 0 {
        '0'
    } else if d == 1 {
        '1'
    } else if d == 2 {
        '2'
    } else if d == 3 {
        '3'
    } else if d == 4 {
        '4'
    } else if d == 5 {
        '5'
    } else if d == 6 {
        '6'
    } else if d == 7 {
        '7'
    } else if d == 8 {
        '8'
    } else if d == 9 {
        '9'
    } else if d == 10 {
        'A'
    } else if d == 11 {
        'B'
    } else if d == 12 {
        'C'
    } else if d == 13 {
        'D'
    } else if d == 14 {
        'E'
    } else {
        'F'
    }
}

fn push_json_char(out: &mut String, c: char)
    ensures
        final(out)@ == old(out)@ + json_char(c),
{
    if c == '"' {
        out.push('\\');
        out.push('"');
    } else if c == '\\' {
        out.push('\\');
        out.push('\\');
    } else if c == '\u{08}' {
        out.push('\\');
        out.push('b');
    } else if c == '\u{0C}' {
        out.push('\\');
        out.push('f');
    } else if c == '\n' {
        out.push('\\');
        out.push('n');
    } else if c == '\r' {
        out.push('\\');
        out.push('r');
    } else if c == '\t' {
        out.push('\\');
        out.push('t');
    } else if (c as u32) < 0x20 {
        let code = c as u32;
        out.push('\\');
        out.push('u');
        out.push('0');
        out.push('0');
        out.push(hex_lower(code / 16));
        out.push(hex_lower(code % 16));
    } else {
        out.push(c);
    }
    assert(out@ =~= old(out)@ + json_char(c));
}

fn push_json_string(out: &mut String, s: &str)
    ensures
        final(out)@ == old(out)@ + json_string(s@),
{
    let v = chars_of(s);
    out.push('"');
    let ghost start = out@;
    let mut i: usize = 0;
    assert(v@.take(0) =~= Seq::empty());
    while i < v.len()
        invariant
            i <= v.len(),
            out@ == start + json_escaped(v@.take(i as int)),
        decreases v.len() - i,
    {
        assert(v@.take(i + 1).drop_last() =~= v@.take(i as int));
        push_json_char(out, v[i]);
        assert(out@ =~= start + json_escaped(v@.take(i + 1)));
        i += 1;
    }
    assert(v@.take(i as int) =~= v@);
    out.push('"');
    assert(out@ =~= old(out)@ + json_string(s@));
}

fn push_json_goal(out: &mut String, goal: &Goal)
    ensures
        final(out)@ == old(out)@ + json_goal(goal.deep_view()),
{
    out.push_str("{\"id\":");
    push_json_string(out, goal.id.as_str());
    out.push_str(",\"title\":");
    push_json_string(out, goal.title.as_str());
    out.push_str(",\"completed\":");
    if goal.completed {
        out.push_str("true");
    } else {
        out.push_str("false");
    }
    out.push_str(",\"parentId\":");
    match &goal.parent_id {
        Some(p) => push_json_string(out, p.as_str()),
        None => out.push_str("null"),
    }
    out.push_str("}");
    assert(out@ =~= old(out)@ + json_goal(goal.deep_view()));
}

/// The payload for the goals `goals`: a JSON array with one object for each
/// goal, in their order.
pub fn encode_goals(goals: &Vec<Goal>) -> (payload: String)
    ensures
        payload@ == payload_of(goals.deep_view()),
{
    let ghost gs = goals.deep_view();
    let mut out = String::new();
    out.push_str("[");
    let mut i: usize = 0;
    assert(out@ =~= "["@ + json_members(gs, 0));
    while i < goals.len()
        invariant
            i <= goals.len(),
            gs == goals.deep_view(),
            out@ == "["@ + json_members(gs, i as int),
        decreases goals.len() - i,
    {
        if i > 0 {
            out.push_str(",");
        }
        push_json_goal(&mut out, &goals[i]);
        assert(out@ =~= "["@ + json_members(gs, i + 1));
        i += 1;
    }
    out.push_str("]");
    out
}

fn unreserved(b: u8) -> (r: bool)
    ensures
        r == is_unreserved(b),
{
    (0x41 <= b && b <= 0x5A) || (0x61 <= b && b <= 0x7A) || (0x30 <= b && b <= 0x39) || b == 0x2D
        || b == 0x5F || b == 0x2E || b == 0x21 || b == 0x7E || b == 0x2A || b == 0x27 || b == 0x28
        || b == 0x29
}

/// Appends `text`, percent-escaped, to `out`.
pub fn push_escaped(out: &mut String, text: &str)
    ensures
        final(out)@ == old(out)@ + percent_escaped(text@),
{
    let bytes = text.as_bytes();
    let ghost start = out@;
    let mut i: usize = 0;
    assert(bytes@.take(0) =~= Seq::empty());
    assert(out@ =~= start + escaped_bytes(bytes@.take(0)));
    while i < bytes.len()
        invariant
            i <= bytes.len(),
            out@ == start + escaped_bytes(bytes@.take(i as int)),
        decreases bytes.len() - i,
    {
        assert(bytes@.take(i + 1).drop_last() =~= bytes@.take(i as int));
        let b = bytes[i];
        if unreserved(b) {
            out.push(b as char);
        } else {
            out.push('%');
            out.push(hex_upper(b / 16));
            out.push(hex_upper(b % 16));
        }
        assert(out@ =~= start + escaped_bytes(bytes@.take(i + 1)));
        i += 1;
    }
    assert(bytes@.take(i as int) =~= bytes@);
}

/// The address that carries the payload `payload` to the receiving side.
pub fn address_for(payload: &str) -> (address: String)
    ensures
        address@ == address_of(payload@),
{
    let mut out = "http://localhost:19837".to_owned();
    out.push_str("?data=");
    push_escaped(&mut out, payload);
    out
}

/// Serializes the goals and wraps them for delivery: the address to which
/// the page is sent so that the receiving side gets the payload.
pub fn emit(goals: &Vec<Goal>) -> (address: String)
    ensures
        address@ == delivery_of(goals.deep_view()),
{
    let payload = encode_goals(goals);
    address_for(payload.as_str())
}

} // verus!
