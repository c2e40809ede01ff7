//! The settings-document serializer for button lists, and the round-trip
//! law: re-parsing a serialized button list yields the same list.
//!
//! The serializer emits the canonical form — no whitespace, the five
//! button keys in a fixed order, strings with the escapes of the grammar:
//! a short escape where one exists, a `\u00XX` escape for any other
//! control character, and the character itself otherwise.

use vstd::prelude::*;
use vstd::string::*;
use crate::doc::{
    apply_button_field, complete_button, empty_raw_button, hex4_code, hex_escape_at, hex_val,
    is_control, is_hex_digit, is_scalar_code, is_ws, parse_button, parse_button_list,
    parse_button_members, parse_button_pair, parse_buttons_items, parse_buttons_text, parse_string,
    parse_string_body, skip_ws, unescape, RawButton,
};
use crate::settings::{ButtonInfo, ButtonModel, buttons_view};
use crate::text::chars_to_string;

verus! {

/// The lower-case character of one hexadecimal digit.
pub open spec fn hex_digit_char(n: int) -> char {
    if n == 0 {
        '0'
    } else if n == 1 {
        '1'
    } else if n == 2 {
        '2'
    } else if n == 3 {
        '3'
    } else if n == 4 {
        '4'
    } else if n == 5 {
        '5'
    } else if n == 6 {
        '6'
    } else if n == 7 {
        '7'
    } else if n == 8 {
        '8'
    } else if n == 9 {
        '9'
    } else if n == 10 {
        'a'
    } else if n == 11 {
        'b'
    } else if n == 12 {
        'c'
    } else if n == 13 {
        'd'
    } else if n == 14 {
        'e'
    } else {
        'f'
    }
}

/// How one character is written inside a string: the grammar's short
/// escape where one exists, a `\u00XX` escape for any other control
/// character, the character itself otherwise.
pub open spec fn escape_char(c: char) -> Seq<char> {
    if c == '"' {
        seq!['\\', '"']
    } else if c == '\\' {
        seq!['\\', '\\']
    } else if c == '\n' {
        seq!['\\', 'n']
    } else if c == '\t' {
        seq!['\\', 't']
    } else if c == '\r' {
        seq!['\\', 'r']
    } else if c == '\u{0008}' {
        seq!['\\', 'b']
    } else if c == '\u{000C}' {
        seq!['\\', 'f']
    } else if is_control(c) {
        seq!['\\', 'u', '0', '0', hex_digit_char(c as int / 16), hex_digit_char(c as int % 16)]
    } else {
        seq![c]
    }
}

/// The body of a serialized string: each character escaped as needed.
pub open spec fn ser_string_body(t: Seq<char>) -> Seq<char>
    decreases t.len(),
{
    if t.len() == 0 {
        Seq::empty()
    } else {
        escape_char(t[0]) + ser_string_body(t.drop_first())
    }
}

/// A serialized string: quote, escaped body, quote.
pub open spec fn ser_string(t: Seq<char>) -> Seq<char> {
    seq!['"'] + ser_string_body(t) + seq!['"']
}

/// One serialized `"key":"value"` pair.
pub open spec fn ser_pair(key: Seq<char>, val: Seq<char>) -> Seq<char> {
    ser_string(key) + seq![':'] + ser_string(val)
}

/// A serialized button object: the five fields in canonical order.
pub open spec fn ser_button(b: ButtonModel) -> Seq<char> {
    seq!['{'] + ser_pair("id"@, b.id) + seq![','] + ser_pair("command"@, b.command) + seq![',']
        + ser_pair("icon"@, b.icon) + seq![','] + ser_pair("text"@, b.text) + seq![','] + ser_pair(
        "keybind"@,
        seq![b.keybind],
    ) + seq!['}']
}

/// The comma-separated items of a serialized button array.
pub open spec fn ser_buttons_items(bs: Seq<ButtonModel>) -> Seq<char>
    decreases bs.len(),
{
    if bs.len() == 0 {
        Seq::empty()
    } else if bs.len() == 1 {
        ser_button(bs[0])
    } else {
        ser_buttons_items(bs.drop_last()) + seq![','] + ser_button(bs.last())
    }
}

/// A serialized button array.
pub open spec fn ser_buttons(bs: Seq<ButtonModel>) -> Seq<char> {
    seq!['['] + ser_buttons_items(bs) + seq![']']
}

/// `piece` stands letter for letter at position `i` of `s`.
pub open spec fn lit_at(s: Seq<char>, i: int, piece: Seq<char>) -> bool {
    0 <= i && i + piece.len() <= s.len() && s.subrange(i, i + piece.len()) == piece
}

/// A piece made of two parts stands at `i` exactly when the first part
/// stands at `i` and the second right after it.
proof fn lemma_lit_at_split(s: Seq<char>, i: int, a: Seq<char>, b: Seq<char>)
    requires
        lit_at(s, i, a + b),
    ensures
        lit_at(s, i, a),
        lit_at(s, i + a.len(), b),
{
    let ab = a + b;
    assert forall|k: int| 0 <= k < a.len() implies s.subrange(i, i + a.len() as int)[k] == a[k] by {
        assert(s.subrange(i, i + ab.len() as int)[k] == ab[k]);
    }
    assert(s.subrange(i, i + a.len() as int) =~= a);
    assert forall|k: int|
        0 <= k < b.len() implies s.subrange(i + a.len() as int, i + ab.len() as int)[k] == b[k] by {
        assert(s.subrange(i, i + ab.len() as int)[k + a.len()] == ab[k + a.len()]);
    }
    assert(s.subrange(i + a.len() as int, i + a.len() + b.len()) =~= b);
}

/// One character of a piece standing at `i` is that character of `s`.
proof fn lemma_lit_at_index(s: Seq<char>, i: int, piece: Seq<char>, k: int)
    requires
        lit_at(s, i, piece),
        0 <= k < piece.len(),
    ensures
        s[i + k] == piece[k],
{
    assert(s.subrange(i, i + piece.len() as int)[k] == piece[k]);
}

/// A hexadecimal digit character reads back as its value.
proof fn lemma_hex_digit_char(n: int)
    requires
        0 <= n < 16,
    ensures
        is_hex_digit(hex_digit_char(n)),
        hex_val(hex_digit_char(n)) == n,
{
}

/// A serialized string body re-parses to exactly the text it came from.
proof fn lemma_rt_string_body(s: Seq<char>, i: int, t: Seq<char>)
    requires
        lit_at(s, i, ser_string_body(t)),
        i + ser_string_body(t).len() < s.len(),
        s[i + ser_string_body(t).len()] == '"',
    ensures
        parse_string_body(s, i) == Some((t, i + ser_string_body(t).len() + 1)),
    decreases t.len(),
{
    let body = ser_string_body(t);
    if t.len() == 0 {
        assert(s[i] == '"');
    } else {
        let c = t[0];
        let e = escape_char(c);
        let t2 = t.drop_first();
        let rest = ser_string_body(t2);
        lemma_lit_at_split(s, i, e, rest);
        lemma_lit_at_index(s, i, e, 0);
        assert(s[i] == e[0]);
        if e.len() == 2 {
            assert(s[i] == '\\');
            lemma_lit_at_index(s, i, e, 1);
            assert(s[i + 1] == e[1]);
            assert(e[1] != 'u');
            assert(unescape(e[1]) == Some(c));
            lemma_rt_string_body(s, i + 2, t2);
            assert(parse_string_body(s, i) == Some((seq![c] + t2, i + body.len() + 1)));
            assert(seq![c] + t2 =~= t);
        } else if e.len() == 6 {
            let code = c as int;
            assert(is_control(c));
            assert(0 <= code < 0x20) by {
                vstd::utf8::char_is_scalar(c);
                vstd::utf8::char_u32_cast(c, c as u32);
            }
            vstd::arithmetic::div_mod::lemma_fundamental_div_mod(code, 16);
            lemma_hex_digit_char(code / 16);
            lemma_hex_digit_char(code % 16);
            assert(s[i] == '\\');
            lemma_lit_at_index(s, i, e, 1);
            lemma_lit_at_index(s, i, e, 2);
            lemma_lit_at_index(s, i, e, 3);
            lemma_lit_at_index(s, i, e, 4);
            lemma_lit_at_index(s, i, e, 5);
            assert(s[i + 1] == 'u');
            assert(s[i + 2] == '0' && s[i + 3] == '0');
            assert(s[i + 4] == hex_digit_char(code / 16));
            assert(s[i + 5] == hex_digit_char(code % 16));
            assert(hex4_code(s, i + 2) == code) by {
                assert(hex_val('0') == 0);
            }
            assert(is_scalar_code(code));
            assert(hex_escape_at(s, i));
            assert(hex4_code(s, i + 2) as char == c) by {
                vstd::utf8::char_u32_cast(c, c as u32);
            }
            lemma_rt_string_body(s, i + 6, t2);
            assert(parse_string_body(s, i) == Some((seq![c] + t2, i + body.len() + 1)));
            assert(seq![c] + t2 =~= t);
        } else {
            assert(s[i] == c);
            assert(c != '"' && c != '\\');
            assert(!is_control(c));
            lemma_rt_string_body(s, i + 1, t2);
            assert(parse_string_body(s, i) == Some((seq![c] + t2, i + body.len() + 1)));
            assert(seq![c] + t2 =~= t);
        }
    }
}

/// A serialized string re-parses to exactly the text it came from.
proof fn lemma_rt_string(s: Seq<char>, i: int, t: Seq<char>)
    requires
        lit_at(s, i, ser_string(t)),
    ensures
        parse_string(s, i) == Some((t, i + ser_string(t).len())),
{
    let body = ser_string_body(t);
    assert(ser_string(t) =~= seq!['"'] + (body + seq!['"']));
    lemma_lit_at_split(s, i, seq!['"'], body + seq!['"']);
    lemma_lit_at_split(s, i + 1, body, seq!['"']);
    lemma_lit_at_index(s, i, seq!['"'], 0);
    assert(s[i] == '"');
    lemma_lit_at_index(s, i + 1 + body.len() as int, seq!['"'], 0);
    assert(s[i + 1 + body.len()] == '"');
    lemma_rt_string_body(s, i + 1, t);
}

/// A serialized pair re-parses, storing its field exactly once.
proof fn lemma_rt_button_pair(s: Seq<char>, i: int, key: Seq<char>, val: Seq<char>, p: RawButton)
    requires
        lit_at(s, i, ser_pair(key, val)),
        apply_button_field(p, key, val) is Some,
    ensures
        parse_button_pair(s, i, p) == Some(
            (apply_button_field(p, key, val)->0, i + ser_pair(key, val).len()),
        ),
{
    let sk = ser_string(key);
    let sv = ser_string(val);
    assert(ser_pair(key, val) =~= sk + (seq![':'] + sv));
    lemma_lit_at_split(s, i, sk, seq![':'] + sv);
    lemma_lit_at_split(s, i + sk.len(), seq![':'], sv);
    lemma_rt_string(s, i, key);
    let j = i + sk.len();
    lemma_lit_at_index(s, j, seq![':'], 0);
    assert(s[j] == ':');
    assert(skip_ws(s, j) == j);
    lemma_lit_at_index(s, j + 1, sv, 0);
    assert(s[j + 1] == '"') by {
        assert(sv[0] == '"');
    }
    assert(skip_ws(s, j + 1) == j + 1);
    lemma_rt_string(s, j + 1, val);
}

/// The members of a serialized button object re-parse, filling the five
/// fields from any partial state they all fit into.
#[verifier::rlimit(60)]
proof fn lemma_rt_button_members(s: Seq<char>, i: int, b: ButtonModel)
    requires
        lit_at(
            s,
            i,
            ser_pair("id"@, b.id) + seq![','] + ser_pair("command"@, b.command) + seq![',']
                + ser_pair("icon"@, b.icon) + seq![','] + ser_pair("text"@, b.text) + seq![',']
                + ser_pair("keybind"@, seq![b.keybind]) + seq!['}'],
        ),
    ensures
        ({
            let whole = ser_pair("id"@, b.id) + seq![','] + ser_pair("command"@, b.command)
                + seq![','] + ser_pair("icon"@, b.icon) + seq![','] + ser_pair("text"@, b.text)
                + seq![','] + ser_pair("keybind"@, seq![b.keybind]) + seq!['}'];
            parse_button_members(s, i, empty_raw_button()) == Some(
                (
                    RawButton {
                        id: Some(b.id),
                        command: Some(b.command),
                        icon: Some(b.icon),
                        text: Some(b.text),
                        keybind: Some(b.keybind),
                    },
                    i + whole.len(),
                ),
            )
        }),
{
    reveal_strlit("id");
    reveal_strlit("command");
    reveal_strlit("icon");
    reveal_strlit("text");
    reveal_strlit("keybind");
    let p0 = ser_pair("id"@, b.id);
    let p1 = ser_pair("command"@, b.command);
    let p2 = ser_pair("icon"@, b.icon);
    let p3 = ser_pair("text"@, b.text);
    let p4 = ser_pair("keybind"@, seq![b.keybind]);
    let whole = p0 + seq![','] + p1 + seq![','] + p2 + seq![','] + p3 + seq![','] + p4 + seq!['}'];

    let i1 = i + p0.len() + 1;
    let i2 = i1 + p1.len() + 1;
    let i3 = i2 + p2.len() + 1;
    let i4 = i3 + p3.len() + 1;
    let iend = i4 + p4.len();

    let t4 = p4 + seq!['}'];
    let t3 = p3 + (seq![','] + t4);
    let t2 = p2 + (seq![','] + t3);
    let t1 = p1 + (seq![','] + t2);
    let t0 = p0 + (seq![','] + t1);
    assert(whole =~= t0);
    lemma_lit_at_split(s, i, p0, seq![','] + t1);
    lemma_lit_at_split(s, i + p0.len(), seq![','], t1);
    lemma_lit_at_split(s, i1, p1, seq![','] + t2);
    lemma_lit_at_split(s, i1 + p1.len(), seq![','], t2);
    lemma_lit_at_split(s, i2, p2, seq![','] + t3);
    lemma_lit_at_split(s, i2 + p2.len(), seq![','], t3);
    lemma_lit_at_split(s, i3, p3, seq![','] + t4);
    lemma_lit_at_split(s, i3 + p3.len(), seq![','], t4);
    lemma_lit_at_split(s, i4, p4, seq!['}']);

    let q0 = empty_raw_button();
    let q1 = RawButton { id: Some(b.id), ..q0 };
    let q2 = RawButton { command: Some(b.command), ..q1 };
    let q3 = RawButton { icon: Some(b.icon), ..q2 };
    let q4 = RawButton { text: Some(b.text), ..q3 };
    let q5 = RawButton { keybind: Some(b.keybind), ..q4 };

    assert(apply_button_field(q0, "id"@, b.id) == Some(q1));
    lemma_rt_button_pair(s, i, "id"@, b.id, q0);
    lemma_lit_at_index(s, i + p0.len() as int, seq![','], 0);
    assert(s[i + p0.len()] == ',');
    assert(skip_ws(s, i + p0.len()) == i + p0.len());
    lemma_lit_at_index(s, i1, t1, 0);
    assert(s[i1] == '"') by {
        assert(p1[0] == '"');
    }
    assert(skip_ws(s, i + p0.len() + 1) == i1);

    assert(apply_button_field(q1, "command"@, b.command) == Some(q2));
    lemma_rt_button_pair(s, i1, "command"@, b.command, q1);
    lemma_lit_at_index(s, i1 + p1.len() as int, seq![','], 0);
    assert(s[i1 + p1.len()] == ',');
    assert(skip_ws(s, i1 + p1.len()) == i1 + p1.len());
    lemma_lit_at_index(s, i2, t2, 0);
    assert(s[i2] == '"') by {
        assert(p2[0] == '"');
    }
    assert(skip_ws(s, i1 + p1.len() + 1) == i2);

    assert(apply_button_field(q2, "icon"@, b.icon) == Some(q3));
    lemma_rt_button_pair(s, i2, "icon"@, b.icon, q2);
    lemma_lit_at_index(s, i2 + p2.len() as int, seq![','], 0);
    assert(s[i2 + p2.len()] == ',');
    assert(skip_ws(s, i2 + p2.len()) == i2 + p2.len());
    lemma_lit_at_index(s, i3, t3, 0);
    assert(s[i3] == '"') by {
        assert(p3[0] == '"');
    }
    assert(skip_ws(s, i2 + p2.len() + 1) == i3);

    assert(apply_button_field(q3, "text"@, b.text) == Some(q4));
    lemma_rt_button_pair(s, i3, "text"@, b.text, q3);
    lemma_lit_at_index(s, i3 + p3.len() as int, seq![','], 0);
    assert(s[i3 + p3.len()] == ',');
    assert(skip_ws(s, i3 + p3.len()) == i3 + p3.len());
    lemma_lit_at_index(s, i4, t4, 0);
    assert(s[i4] == '"') by {
        assert(p4[0] == '"');
    }
    assert(skip_ws(s, i3 + p3.len() + 1) == i4);

    assert(apply_button_field(q4, "keybind"@, seq![b.keybind]) == Some(q5)) by {
        assert(seq![b.keybind].len() == 1);
        assert(seq![b.keybind][0] == b.keybind);
    }
    lemma_rt_button_pair(s, i4, "keybind"@, seq![b.keybind], q4);
    lemma_lit_at_index(s, iend, seq!['}'], 0);
    assert(s[iend] == '}');
    assert(skip_ws(s, iend) == iend);

    assert(parse_button_members(s, i4, q4) == Some((q5, iend + 1)));
    assert(parse_button_members(s, i3, q3) == Some((q5, iend + 1)));
    assert(parse_button_members(s, i2, q2) == Some((q5, iend + 1)));
    assert(parse_button_members(s, i1, q1) == Some((q5, iend + 1)));
    assert(parse_button_members(s, i, q0) == Some((q5, iend + 1)));
    assert(iend + 1 == i + whole.len());
}

/// A serialized button re-parses to exactly the button it came from.
proof fn lemma_rt_button(s: Seq<char>, i: int, b: ButtonModel)
    requires
        lit_at(s, i, ser_button(b)),
    ensures
        parse_button(s, i) == Some((b, i + ser_button(b).len())),
{
    let members = ser_pair("id"@, b.id) + seq![','] + ser_pair("command"@, b.command) + seq![',']
        + ser_pair("icon"@, b.icon) + seq![','] + ser_pair("text"@, b.text) + seq![','] + ser_pair(
        "keybind"@,
        seq![b.keybind],
    ) + seq!['}'];
    assert(ser_button(b) =~= seq!['{'] + members);
    lemma_lit_at_split(s, i, seq!['{'], members);
    lemma_lit_at_index(s, i, seq!['{'], 0);
    assert(s[i] == '{');
    lemma_lit_at_index(s, i + 1, members, 0);
    assert(s[i + 1] == '"') by {
        assert(members[0] == '"');
        reveal_strlit("id");
    }
    assert(skip_ws(s, i + 1) == i + 1);
    lemma_rt_button_members(s, i + 1, b);
    let p = RawButton {
        id: Some(b.id),
        command: Some(b.command),
        icon: Some(b.icon),
        text: Some(b.text),
        keybind: Some(b.keybind),
    };
    assert(complete_button(p) == Some(b));
}

/// In a list of two or more, the serialized items split off the first
/// button at the front.
proof fn lemma_ser_items_front(bs: Seq<ButtonModel>)
    requires
        bs.len() >= 2,
    ensures
        ser_buttons_items(bs) == ser_button(bs[0]) + seq![','] + ser_buttons_items(
            bs.drop_first(),
        ),
    decreases bs.len(),
{
    if bs.len() == 2 {
        assert(bs.drop_last() =~= seq![bs[0]]);
        assert(bs.drop_first() =~= seq![bs[1]]);
        assert(bs.drop_first().drop_last() =~= Seq::<ButtonModel>::empty());
        assert(ser_buttons_items(bs.drop_first()) == ser_button(bs[1]));
    } else {
        lemma_ser_items_front(bs.drop_last());
        assert(bs.drop_last()[0] == bs[0]);
        assert(bs.drop_first().drop_last() =~= bs.drop_last().drop_first());
        assert(bs.drop_first().last() == bs.last());
        assert(bs.drop_first().len() >= 2);
        assert(ser_buttons_items(bs.drop_first()) == ser_buttons_items(bs.drop_first().drop_last())
            + seq![','] + ser_button(bs.drop_first().last()));
        assert(ser_buttons_items(bs) == ser_buttons_items(bs.drop_last()) + seq![','] + ser_button(
            bs.last(),
        ));
        assert(ser_button(bs[0]) + seq![','] + ser_buttons_items(bs.drop_first()) =~= ser_buttons_items(
            bs,
        ));
    }
}

/// Serialized items followed by the closing bracket re-parse to exactly
/// the buttons they came from.
proof fn lemma_rt_buttons_items(s: Seq<char>, i: int, bs: Seq<ButtonModel>)
    requires
        bs.len() >= 1,
        lit_at(s, i, ser_buttons_items(bs)),
        i + ser_buttons_items(bs).len() < s.len(),
        s[i + ser_buttons_items(bs).len()] == ']',
    ensures
        parse_buttons_items(s, i) == Some((bs, i + ser_buttons_items(bs).len() + 1)),
    decreases bs.len(),
{
    if bs.len() == 1 {
        lemma_rt_button(s, i, bs[0]);
        let j = i + ser_button(bs[0]).len();
        assert(s[j] == ']');
        assert(skip_ws(s, j) == j);
        assert(seq![bs[0]] =~= bs);
        assert(parse_buttons_items(s, i) == Some((seq![bs[0]], j + 1)));
    } else {
        lemma_ser_items_front(bs);
        let b0 = ser_button(bs[0]);
        let rest = ser_buttons_items(bs.drop_first());
        assert(ser_buttons_items(bs) =~= b0 + (seq![','] + rest));
        lemma_lit_at_split(s, i, b0, seq![','] + rest);
        lemma_lit_at_split(s, i + b0.len(), seq![','], rest);
        lemma_rt_button(s, i, bs[0]);
        let j = i + b0.len();
        lemma_lit_at_index(s, j, seq![','], 0);
        assert(s[j] == ',');
        assert(skip_ws(s, j) == j);
        lemma_lit_at_index(s, j + 1, rest, 0);
        assert(s[j + 1] == '{') by {
            assert(rest.len() >= 1);
            assert(rest[0] == '{') by {
                let first = bs.drop_first();
                if first.len() == 1 {
                    assert(rest == ser_button(first[0]));
                } else {
                    lemma_ser_items_front(first);
                }
                assert(ser_button(first[0])[0] == '{');
            }
        }
        assert(skip_ws(s, j + 1) == j + 1);
        lemma_rt_buttons_items(s, j + 1, bs.drop_first());
        assert(seq![bs[0]] + bs.drop_first() =~= bs);
    }
}

/// Round trip: re-parsing a serialized button list yields exactly the
/// list it came from, in order, for every button list.
#[verifier::rlimit(60)]
pub proof fn lemma_buttons_round_trip(bs: Seq<ButtonModel>)
    ensures
        parse_buttons_text(ser_buttons(bs)) == Some(bs),
{
    let s = ser_buttons(bs);
    let items = ser_buttons_items(bs);
    let whole = seq!['['] + (items + seq![']']);
    assert(s =~= whole);
    assert(lit_at(s, 0, whole)) by {
        assert(s.subrange(0, whole.len() as int) =~= whole);
    }
    lemma_lit_at_split(s, 0, seq!['['], items + seq![']']);
    lemma_lit_at_split(s, 1, items, seq![']']);
    lemma_lit_at_index(s, 0, seq!['['], 0);
    assert(s[0] == '[');
    lemma_lit_at_index(s, 1 + items.len() as int, seq![']'], 0);
    assert(skip_ws(s, 0) == 0);
    if bs.len() == 0 {
        assert(s[1] == ']');
        assert(skip_ws(s, 1) == 1);
        assert(parse_button_list(s, 0) == Some((Seq::<ButtonModel>::empty(), 2int)));
        assert(skip_ws(s, 2) == 2);
        assert(bs =~= Seq::<ButtonModel>::empty());
    } else {
        lemma_lit_at_index(s, 1, items, 0);
        assert(s[1] == '{') by {
            assert(items[0] == '{') by {
                if bs.len() == 1 {
                    assert(items == ser_button(bs[0]));
                } else {
                    lemma_ser_items_front(bs);
                }
                assert(ser_button(bs[0])[0] == '{');
            }
        }
        assert(skip_ws(s, 1) == 1);
        assert(s[1 + items.len() as int] == ']');
        lemma_rt_buttons_items(s, 1, bs);
        assert(parse_button_list(s, 0) == Some((bs, s.len() as int)));
        assert(skip_ws(s, s.len() as int) == s.len());
    }
}

/// Append a serialized string body character, escaped as the grammar
/// requires.
fn push_escaped(acc: &mut Vec<char>, c: char)
    ensures
        final(acc)@ == old(acc)@ + escape_char(c),
{
    if c == '"' {
        acc.push('\\');
        acc.push('"');
    } else if c == '\\' {
        acc.push('\\');
        acc.push('\\');
    } else if c == '\n' {
        acc.push('\\');
        acc.push('n');
    } else if c == '\t' {
        acc.push('\\');
        acc.push('t');
    } else if c == '\r' {
        acc.push('\\');
        acc.push('r');
    } else if c == '\u{0008}' {
        acc.push('\\');
        acc.push('b');
    } else if c == '\u{000C}' {
        acc.push('\\');
        acc.push('f');
    } else if (c as u32) < 0x20 {
        let code = c as u32;
        acc.push('\\');
        acc.push('u');
        acc.push('0');
        acc.push('0');
        acc.push(hex_char_exec(code / 16));
        acc.push(hex_char_exec(code % 16));
    } else {
        acc.push(c);
    }
    proof {
        assert(acc@ =~= old(acc)@ + escape_char(c));
    }
}

/// The lower-case character of one hexadecimal digit.
fn hex_char_exec(n: u32) -> (r: char)
    requires
        n < 16,
    ensures
        r == hex_digit_char(n as int),
{
    if n == 0 {
        '0'
    } else if n == 1 {
        '1'
    } else if n == 2 {
        '2'
    } else if n == 3 {
        '3'
    } else if n == 4 {
        '4'
    } else if n == 5 {
        '5'
    } else if n == 6 {
        '6'
    } else if n == 7 {
        '7'
    } else if n == 8 {
        '8'
    } else if n == 9 {
        '9'
    } else if n == 10 {
        'a'
    } else if n == 11 {
        'b'
    } else if n == 12 {
        'c'
    } else if n == 13 {
        'd'
    } else if n == 14 {
        'e'
    } else {
        'f'
    }
}

/// Writing one more character extends a serialized body at its end.
proof fn lemma_ser_body_snoc(t: Seq<char>, c: char)
    ensures
        ser_string_body(t.push(c)) == ser_string_body(t) + escape_char(c),
    decreases t.len(),
{
    if t.len() == 0 {
        assert(t.push(c).drop_first() =~= Seq::<char>::empty());
        assert(t.push(c)[0] == c);
        assert(ser_string_body(Seq::<char>::empty()) == Seq::<char>::empty());
        assert(ser_string_body(t.push(c)) =~= ser_string_body(t) + escape_char(c));
    } else {
        assert(t.push(c).drop_first() =~= t.drop_first().push(c));
        lemma_ser_body_snoc(t.drop_first(), c);
        assert(t.push(c)[0] == t[0]);
        assert(ser_string_body(t.push(c)) =~= ser_string_body(t) + escape_char(c));
    }
}

/// Append a serialized string: quote, escaped body, quote.
#[verifier::loop_isolation(false)]
fn push_ser_string(acc: &mut Vec<char>, s: &str)
    ensures
        final(acc)@ == old(acc)@ + ser_string(s@),
{
    acc.push('"');
    let n = s.unicode_len();
    let mut i: usize = 0;
    while i < n
        invariant
            i <= n,
            acc@ == old(acc)@ + seq!['"'] + ser_string_body(s@.take(i as int)),
        decreases n - i,
    {
        let c = s.get_char(i);
        push_escaped(acc, c);
        i = i + 1;
        proof {
            assert(s@.take(i as int) =~= s@.take(i as int - 1).push(c));
            lemma_ser_body_snoc(s@.take(i as int - 1), c);
        }
    }
    acc.push('"');
    proof {
        assert(s@.take(n as int) =~= s@);
        assert(acc@ =~= old(acc)@ + ser_string(s@));
    }
}

/// Append the serialized one-character string of a keybind.
fn push_ser_char_string(acc: &mut Vec<char>, c: char)
    ensures
        final(acc)@ == old(acc)@ + ser_string(seq![c]),
{
    acc.push('"');
    push_escaped(acc, c);
    acc.push('"');
    proof {
        assert(seq![c].drop_first() =~= Seq::<char>::empty());
        assert(ser_string_body(Seq::<char>::empty()) == Seq::<char>::empty());
        assert(ser_string_body(seq![c]) =~= escape_char(c));
        assert(acc@ =~= old(acc)@ + ser_string(seq![c]));
    }
}

/// Append one serialized button object, its five fields in canonical
/// order.
#[verifier::rlimit(30)]
fn push_ser_button(acc: &mut Vec<char>, b: &ButtonInfo)
    ensures
        final(acc)@ == old(acc)@ + ser_button(b@),
{
    acc.push('{');
    push_ser_string(acc, "id");
    acc.push(':');
    push_ser_string(acc, b.id.as_str());
    acc.push(',');
    push_ser_string(acc, "command");
    acc.push(':');
    push_ser_string(acc, b.command.as_str());
    acc.push(',');
    push_ser_string(acc, "icon");
    acc.push(':');
    push_ser_string(acc, b.icon.as_str());
    acc.push(',');
    push_ser_string(acc, "text");
    acc.push(':');
    push_ser_string(acc, b.text.as_str());
    acc.push(',');
    push_ser_string(acc, "keybind");
    acc.push(':');
    push_ser_char_string(acc, b.keybind);
    acc.push('}');
    proof {
        assert(acc@ =~= old(acc)@ + ser_button(b@));
    }
}

/// Serialize a button list to its canonical document text: what the
/// grammar re-parses to exactly the same ordered list.
#[verifier::loop_isolation(false)]
#[verifier::rlimit(60)]
pub fn serialize_buttons(buttons: &Vec<ButtonInfo>) -> (r: String)
    ensures
        r@ == ser_buttons(buttons_view(buttons@)),
{
    let ghost bsm = buttons_view(buttons@);
    let mut acc: Vec<char> = Vec::new();
    acc.push('[');
    let mut i: usize = 0;
    while i < buttons.len()
        invariant
            i <= buttons@.len(),
            acc@ == seq!['['] + ser_buttons_items(bsm.take(i as int)),
        decreases buttons@.len() - i,
    {
        if i > 0 {
            acc.push(',');
        }
        push_ser_button(&mut acc, &buttons[i]);
        proof {
            assert(bsm.take(i as int + 1).drop_last() =~= bsm.take(i as int));
            assert(bsm.take(i as int + 1).last() == bsm[i as int]);
            if i == 0 {
                assert(ser_buttons_items(bsm.take(1)) == ser_button(bsm[0]));
            }
            assert(acc@ =~= seq!['['] + ser_buttons_items(bsm.take(i as int + 1)));
        }
        i = i + 1;
    }
    acc.push(']');
    proof {
        assert(bsm.take(buttons@.len() as int) =~= bsm);
        assert(acc@ =~= ser_buttons(bsm));
    }
    chars_to_string(&acc)
}

} // verus!
