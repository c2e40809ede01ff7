//! The executable settings-document parser, proved to follow the grammar
//! of [`crate::doc`] exactly: a text parses to `Ok` precisely when the
//! grammar accepts it, and then to exactly the value the grammar gives.

use vstd::prelude::*;
use vstd::string::*;
use crate::doc::{
    DocSeen, RawButton, apply_button_field, complete_button, empty_raw_button, empty_raw_model,
    false_at, hex4_code, hex_val, is_digit, is_hex_digit, is_scalar_code, is_ws, known_button_key,
    lemma_button_bounds, lemma_button_pair_bounds, lemma_doc_pair_bounds, lemma_number_bounds,
    lemma_skip_value_bounds, lemma_string_bounds, no_keys_seen, null_at, parse_button,
    parse_button_list, parse_button_members, parse_button_pair, parse_buttons_items,
    parse_buttons_text, parse_digits, parse_doc, parse_doc_members, parse_doc_pair, parse_number,
    parse_string, parse_string_body, skip_array_items, skip_digits, skip_number,
    skip_object_members, skip_value, skip_ws, true_at, unescape,
};
use crate::settings::{ButtonInfo, ButtonModel, RawSettings, RawSettingsModel, buttons_view};
use crate::text::{chars_to_string, str_to_chars};

verus! {

/// The document is malformed.
#[derive(Clone, Copy, Debug, PartialEq, Eq, Structural)]
pub struct ParseError;

/// Whether a character is document whitespace.
fn is_ws_exec(c: char) -> (r: bool)
    ensures
        r == is_ws(c),
{
    c == ' ' || c == '\t' || c == '\n' || c == '\r'
}

/// Whether a character is a decimal digit.
fn is_digit_exec(c: char) -> (r: bool)
    ensures
        r == is_digit(c),
{
    let u = c as u32;
    0x30 <= u && u <= 0x39
}

/// The first position at or after `i` holding no whitespace.
#[verifier::loop_isolation(false)]
fn ws_end(s: &Vec<char>, i: usize) -> (j: usize)
    requires
        i <= s@.len(),
    ensures
        j == skip_ws(s@, i as int),
        i <= j <= s@.len(),
{
    let mut j = i;
    while j < s.len() && is_ws_exec(s[j])
        invariant
            i <= j <= s@.len(),
            skip_ws(s@, i as int) == skip_ws(s@, j as int),
        decreases s@.len() - j,
    {
        j = j + 1;
    }
    j
}

/// What a string escape code stands for, if it is one.
fn unescape_exec(c: char) -> (r: Option<char>)
    ensures
        r == unescape(c),
{
    if c == '"' {
        Some('"')
    } else if c == '\\' {
        Some('\\')
    } else if c == '/' {
        Some('/')
    } else if c == 'n' {
        Some('\n')
    } else if c == 't' {
        Some('\t')
    } else if c == 'r' {
        Some('\r')
    } else if c == 'b' {
        Some('\u{0008}')
    } else if c == 'f' {
        Some('\u{000C}')
    } else {
        None
    }
}

/// The model of a parsed character-vector piece.
pub open spec fn chars_piece_view(r: Option<(Vec<char>, usize)>) -> Option<(Seq<char>, int)> {
    match r {
        Some((t, j)) => Some((t@, j as int)),
        None => None,
    }
}

/// The value of a hexadecimal digit, either case, if it is one.
fn hex_digit_val(c: char) -> (r: Option<u32>)
    ensures
        r is Some <==> is_hex_digit(c),
        r matches Some(v) ==> v == hex_val(c) && v < 16,
{
    let u = c as u32;
    if 0x30 <= u && u <= 0x39 {
        Some(u - 0x30)
    } else if 0x61 <= u && u <= 0x66 {
        Some(u - 0x57)
    } else if 0x41 <= u && u <= 0x46 {
        Some(u - 0x37)
    } else {
        None
    }
}

/// Relies on `char::from_u32`: `Some` exactly on Unicode scalar values —
/// code points up to 0x10FFFF that are not surrogates — and then the
/// character with that code point.
#[verifier::external_body]
fn char_from_u32(u: u32) -> (r: Option<char>)
    ensures
        r is Some <==> is_scalar_code(u as int),
        r matches Some(c) ==> c == u as char,
{
    char::from_u32(u)
}

/// The body of a string, after the opening quote.
fn parse_string_body_exec(s: &Vec<char>, i: usize) -> (r: Option<(Vec<char>, usize)>)
    ensures
        chars_piece_view(r) == parse_string_body(s@, i as int),
    decreases s@.len() - i,
{
    if i >= s.len() {
        return None;
    }
    let c = s[i];
    if c == '"' {
        return Some((Vec::new(), i + 1));
    }
    if c == '\\' {
        if i + 1 < s.len() && s[i + 1] == 'u' {
            if s.len() - i > 5 {
                proof {
                    assert(i + 5 < s@.len());
                }
                let d0 = hex_digit_val(s[i + 2]);
                let d1 = hex_digit_val(s[i + 3]);
                let d2 = hex_digit_val(s[i + 4]);
                let d3 = hex_digit_val(s[i + 5]);
                match (d0, d1, d2, d3) {
                    (Some(a), Some(b), Some(x), Some(y)) => {
                        let code: u32 = a * 0x1000 + b * 0x100 + x * 0x10 + y;
                        proof {
                            assert(code as int == hex4_code(s@, i as int + 2));
                        }
                        match char_from_u32(code) {
                            Some(e) => {
                                proof {
                                    assert(e == hex4_code(s@, i as int + 2) as char);
                                }
                                match parse_string_body_exec(s, i + 6) {
                                    Some((t, j)) => {
                                        let mut t = t;
                                        t.insert(0, e);
                                        proof {
                                            assert(t@ =~= seq![e] + t@.subrange(
                                                1,
                                                t@.len() as int,
                                            ));
                                        }
                                        Some((t, j))
                                    },
                                    None => None,
                                }
                            },
                            None => None,
                        }
                    },
                    _ => None,
                }
            } else {
                None
            }
        } else if i + 1 < s.len() {
            match unescape_exec(s[i + 1]) {
                Some(e) => match parse_string_body_exec(s, i + 2) {
                    Some((t, j)) => {
                        let mut t = t;
                        t.insert(0, e);
                        proof {
                            assert(t@ =~= seq![e] + t@.subrange(1, t@.len() as int));
                        }
                        Some((t, j))
                    },
                    None => None,
                },
                None => None,
            }
        } else {
            None
        }
    } else if (c as u32) < 0x20 {
        None
    } else {
        match parse_string_body_exec(s, i + 1) {
            Some((t, j)) => {
                let mut t = t;
                t.insert(0, c);
                proof {
                    assert(t@ =~= seq![c] + t@.subrange(1, t@.len() as int));
                }
                Some((t, j))
            },
            None => None,
        }
    }
}

/// A whole string: opening quote, body, closing quote.
fn parse_string_exec(s: &Vec<char>, i: usize) -> (r: Option<(Vec<char>, usize)>)
    ensures
        chars_piece_view(r) == parse_string(s@, i as int),
{
    if i < s.len() && s[i] == '"' {
        parse_string_body_exec(s, i + 1)
    } else {
        None
    }
}

/// The model of a parsed number piece.
pub open spec fn digits_piece_view(r: Option<(u32, usize)>) -> Option<(int, int)> {
    match r {
        Some((v, j)) => Some((v as int, j as int)),
        None => None,
    }
}

/// Digits folded onto `acc`, 32 bits at most.
fn parse_digits_exec(s: &Vec<char>, i: usize, acc: u32) -> (r: Option<(u32, usize)>)
    ensures
        digits_piece_view(r) == parse_digits(s@, i as int, acc as int),
    decreases s@.len() - i,
{
    if i < s.len() && is_digit_exec(s[i]) {
        let d: u32 = s[i] as u32 - 0x30;
        let wide: u64 = acc as u64 * 10 + d as u64;
        if wide > 0xFFFF_FFFFu64 {
            None
        } else {
            parse_digits_exec(s, i + 1, wide as u32)
        }
    } else {
        Some((acc, i))
    }
}

/// The model of a parsed 32-bit number piece.
pub open spec fn num_piece_view(r: Option<(u32, usize)>) -> Option<(u32, int)> {
    match r {
        Some((v, j)) => Some((v, j as int)),
        None => None,
    }
}

/// An unsigned number without a leading zero, fitting 32 bits.
fn parse_number_exec(s: &Vec<char>, i: usize) -> (r: Option<(u32, usize)>)
    ensures
        num_piece_view(r) == parse_number(s@, i as int),
{
    if i >= s.len() || !is_digit_exec(s[i]) {
        return None;
    }
    if s[i] == '0' {
        if i + 1 < s.len() && is_digit_exec(s[i + 1]) {
            None
        } else {
            Some((0, i + 1))
        }
    } else {
        match parse_digits_exec(s, i, 0) {
            Some((v, j)) => Some((v, j)),
            None => None,
        }
    }
}

/// Whether a parsed piece of text equals a literal, character for
/// character.
#[verifier::loop_isolation(false)]
fn eq_lit(v: &Vec<char>, lit: &str) -> (r: bool)
    ensures
        r == (v@ == lit@),
{
    let n = lit.unicode_len();
    if v.len() != n {
        proof {
            assert(v@.len() != lit@.len());
        }
        return false;
    }
    let mut i: usize = 0;
    while i < n
        invariant
            i <= n,
            forall|j: int| 0 <= j < i ==> v@[j] == lit@[j],
        decreases n - i,
    {
        if v[i] != lit.get_char(i) {
            return false;
        }
        i = i + 1;
    }
    proof {
        assert(v@ =~= lit@);
    }
    true
}

/// The five fields of a button object while they are being read.
struct ButtonDraft {
    id: Option<Vec<char>>,
    command: Option<Vec<char>>,
    icon: Option<Vec<char>>,
    text: Option<Vec<char>>,
    keybind: Option<char>,
}

impl View for ButtonDraft {
    type V = RawButton;

    closed spec fn view(&self) -> RawButton {
        RawButton {
            id: match self.id {
                Some(v) => Some(v@),
                None => None,
            },
            command: match self.command {
                Some(v) => Some(v@),
                None => None,
            },
            icon: match self.icon {
                Some(v) => Some(v@),
                None => None,
            },
            text: match self.text {
                Some(v) => Some(v@),
                None => None,
            },
            keybind: self.keybind,
        }
    }
}

/// Store one button field under its key.
fn apply_button_field_exec(p: ButtonDraft, key: &Vec<char>, val: Vec<char>) -> (r: Option<
    ButtonDraft,
>)
    ensures
        match r {
            Some(p2) => apply_button_field(p@, key@, val@) == Some(p2@),
            None => apply_button_field(p@, key@, val@) is None,
        },
{
    if eq_lit(key, "id") {
        if p.id.is_some() {
            None
        } else {
            Some(ButtonDraft { id: Some(val), ..p })
        }
    } else if eq_lit(key, "command") {
        if p.command.is_some() {
            None
        } else {
            Some(ButtonDraft { command: Some(val), ..p })
        }
    } else if eq_lit(key, "icon") {
        if p.icon.is_some() {
            None
        } else {
            Some(ButtonDraft { icon: Some(val), ..p })
        }
    } else if eq_lit(key, "text") {
        if p.text.is_some() {
            None
        } else {
            Some(ButtonDraft { text: Some(val), ..p })
        }
    } else if eq_lit(key, "keybind") {
        if p.keybind.is_some() {
            None
        } else if val.len() == 1 {
            Some(ButtonDraft { keybind: Some(val[0]), ..p })
        } else {
            None
        }
    } else {
        None
    }
}

/// One `"key": "value"` pair of a button object.
fn parse_button_pair_exec(s: &Vec<char>, i: usize, p: ButtonDraft) -> (r: Option<
    (ButtonDraft, usize),
>)
    ensures
        match r {
            Some((p2, j)) => parse_button_pair(s@, i as int, p@) == Some((p2@, j as int)) && j
                <= s@.len(),
            None => parse_button_pair(s@, i as int, p@) is None,
        },
{
    let ghost pm = p@;
    match parse_string_exec(s, i) {
        None => None,
        Some((key, j)) => {
            proof {
                lemma_string_bounds(s@, i as int);
            }
            let k = ws_end(s, j);
            if k < s.len() && s[k] == ':' {
                let m = ws_end(s, k + 1);
                let known = eq_lit(&key, "id") || eq_lit(&key, "command") || eq_lit(&key, "icon")
                    || eq_lit(&key, "text") || eq_lit(&key, "keybind");
                proof {
                    assert(known == known_button_key(key@));
                }
                if known {
                    match parse_string_exec(s, m) {
                        None => None,
                        Some((val, n)) => {
                            proof {
                                lemma_string_bounds(s@, m as int);
                            }
                            match apply_button_field_exec(p, &key, val) {
                                Some(p2) => Some((p2, n)),
                                None => None,
                            }
                        },
                    }
                } else {
                    let fuel = s.len() - m + 1;
                    match skip_value_exec(s, m, fuel) {
                        Some(n) => Some((p, n)),
                        None => None,
                    }
                }
            } else {
                None
            }
        },
    }
}

/// The members of a button object, from the first key to the closing
/// brace.
fn parse_button_members_exec(s: &Vec<char>, i: usize, p: ButtonDraft) -> (r: Option<
    (ButtonDraft, usize),
>)
    ensures
        match r {
            Some((p2, j)) => parse_button_members(s@, i as int, p@) == Some((p2@, j as int)) && j
                <= s@.len(),
            None => parse_button_members(s@, i as int, p@) is None,
        },
    decreases s@.len() - i,
{
    let ghost pm = p@;
    match parse_button_pair_exec(s, i, p) {
        None => None,
        Some((p2, j)) => {
            proof {
                lemma_button_pair_bounds(s@, i as int, pm);
            }
            let k = ws_end(s, j);
            if k < s.len() && s[k] == ',' {
                let m = ws_end(s, k + 1);
                parse_button_members_exec(s, m, p2)
            } else if k < s.len() && s[k] == '}' {
                Some((p2, k + 1))
            } else {
                None
            }
        },
    }
}

/// A complete button: every field present exactly once.
fn complete_button_exec(p: ButtonDraft) -> (r: Option<ButtonInfo>)
    ensures
        match r {
            Some(b) => complete_button(p@) == Some(b@),
            None => complete_button(p@) is None,
        },
{
    match (p.id, p.command, p.icon, p.text, p.keybind) {
        (Some(id), Some(command), Some(icon), Some(text), Some(keybind)) => Some(
            ButtonInfo {
                id: chars_to_string(&id),
                command: chars_to_string(&command),
                icon: chars_to_string(&icon),
                text: chars_to_string(&text),
                keybind,
            },
        ),
        _ => None,
    }
}

/// A button object, from its opening brace.
fn parse_button_exec(s: &Vec<char>, i: usize) -> (r: Option<(ButtonInfo, usize)>)
    ensures
        match r {
            Some((b, j)) => parse_button(s@, i as int) == Some((b@, j as int)) && j <= s@.len(),
            None => parse_button(s@, i as int) is None,
        },
{
    if i < s.len() && s[i] == '{' {
        let j = ws_end(s, i + 1);
        let draft = ButtonDraft { id: None, command: None, icon: None, text: None, keybind: None };
        proof {
            assert(draft@ == empty_raw_button());
        }
        match parse_button_members_exec(s, j, draft) {
            None => None,
            Some((p, k)) => match complete_button_exec(p) {
                Some(b) => Some((b, k)),
                None => None,
            },
        }
    } else {
        None
    }
}

/// The items of a non-empty button array, up to the closing bracket.
fn parse_buttons_items_exec(s: &Vec<char>, i: usize) -> (r: Option<(Vec<ButtonInfo>, usize)>)
    ensures
        match r {
            Some((bs, j)) => parse_buttons_items(s@, i as int) == Some(
                (buttons_view(bs@), j as int),
            ) && j <= s@.len(),
            None => parse_buttons_items(s@, i as int) is None,
        },
    decreases s@.len() - i,
{
    match parse_button_exec(s, i) {
        None => None,
        Some((b, j)) => {
            proof {
                lemma_button_bounds(s@, i as int);
            }
            let k = ws_end(s, j);
            if k < s.len() && s[k] == ',' {
                let m = ws_end(s, k + 1);
                match parse_buttons_items_exec(s, m) {
                    Some((bs, n)) => {
                        let mut bs = bs;
                        bs.insert(0, b);
                        proof {
                            assert(buttons_view(bs@) =~= seq![b@] + buttons_view(
                                bs@.subrange(1, bs@.len() as int),
                            ));
                        }
                        Some((bs, n))
                    },
                    None => None,
                }
            } else if k < s.len() && s[k] == ']' {
                let mut v: Vec<ButtonInfo> = Vec::new();
                v.push(b);
                proof {
                    assert(buttons_view(v@) =~= seq![b@]);
                }
                Some((v, k + 1))
            } else {
                None
            }
        },
    }
}

/// A button array, from its opening bracket.
fn parse_button_list_exec(s: &Vec<char>, i: usize) -> (r: Option<(Vec<ButtonInfo>, usize)>)
    ensures
        match r {
            Some((bs, j)) => parse_button_list(s@, i as int) == Some(
                (buttons_view(bs@), j as int),
            ) && j <= s@.len(),
            None => parse_button_list(s@, i as int) is None,
        },
{
    if i < s.len() && s[i] == '[' {
        let j = ws_end(s, i + 1);
        if j < s.len() && s[j] == ']' {
            let v: Vec<ButtonInfo> = Vec::new();
            proof {
                assert(buttons_view(v@) =~= Seq::<ButtonModel>::empty());
            }
            Some((v, j + 1))
        } else {
            parse_buttons_items_exec(s, j)
        }
    } else {
        None
    }
}

/// Whether the literal `true` stands at position `i`.
fn true_at_exec(s: &Vec<char>, i: usize) -> (r: bool)
    requires
        i <= s@.len(),
    ensures
        r == true_at(s@, i as int),
{
    i < s.len() && s.len() - i > 3 && s[i] == 't' && s[i + 1] == 'r' && s[i + 2] == 'u' && s[i + 3]
        == 'e'
}

/// Whether the literal `false` stands at position `i`.
fn false_at_exec(s: &Vec<char>, i: usize) -> (r: bool)
    requires
        i <= s@.len(),
    ensures
        r == false_at(s@, i as int),
{
    i < s.len() && s.len() - i > 4 && s[i] == 'f' && s[i + 1] == 'a' && s[i + 2] == 'l' && s[i + 3]
        == 's' && s[i + 4] == 'e'
}

/// The first position at or after `i` holding no digit.
#[verifier::loop_isolation(false)]
fn digits_end(s: &Vec<char>, i: usize) -> (j: usize)
    requires
        i <= s@.len(),
    ensures
        j == skip_digits(s@, i as int),
        i <= j <= s@.len(),
{
    let mut j = i;
    while j < s.len() && is_digit_exec(s[j])
        invariant
            i <= j <= s@.len(),
            skip_digits(s@, i as int) == skip_digits(s@, j as int),
        decreases s@.len() - j,
    {
        j = j + 1;
    }
    j
}

/// A numeric value of an unknown key, scanned but not interpreted.
fn skip_number_exec(s: &Vec<char>, i: usize) -> (r: Option<usize>)
    requires
        i <= s@.len(),
    ensures
        match r {
            Some(n) => skip_number(s@, i as int) == Some(n as int) && n <= s@.len(),
            None => skip_number(s@, i as int) is None,
        },
{
    let i0 = if i < s.len() && s[i] == '-' {
        i + 1
    } else {
        i
    };
    if !(i0 < s.len() && is_digit_exec(s[i0])) {
        return None;
    }
    let j = if s[i0] == '0' {
        i0 + 1
    } else {
        digits_end(s, i0)
    };
    let frac: Option<usize> = if j < s.len() && s[j] == '.' {
        if j + 1 < s.len() && is_digit_exec(s[j + 1]) {
            Some(digits_end(s, j + 1))
        } else {
            None
        }
    } else {
        Some(j)
    };
    match frac {
        None => None,
        Some(k) => {
            if k < s.len() && (s[k] == 'e' || s[k] == 'E') {
                let e0 = if k + 1 < s.len() && (s[k + 1] == '+' || s[k + 1] == '-') {
                    k + 2
                } else {
                    k + 1
                };
                if e0 < s.len() && is_digit_exec(s[e0]) {
                    Some(digits_end(s, e0))
                } else {
                    None
                }
            } else {
                Some(k)
            }
        },
    }
}

/// Any value of an unknown key, scanned without interpretation.
fn skip_value_exec(s: &Vec<char>, i: usize, fuel: usize) -> (r: Option<usize>)
    requires
        i <= s@.len(),
    ensures
        match r {
            Some(n) => skip_value(s@, i as int, fuel as nat) == Some(n as int) && n <= s@.len(),
            None => skip_value(s@, i as int, fuel as nat) is None,
        },
    decreases fuel,
{
    if fuel == 0 {
        return None;
    }
    if i >= s.len() {
        return None;
    }
    let c = s[i];
    if c == '"' {
        match parse_string_exec(s, i) {
            Some((t, j)) => {
                proof {
                    lemma_string_bounds(s@, i as int);
                }
                Some(j)
            },
            None => None,
        }
    } else if c == '{' {
        let j = ws_end(s, i + 1);
        if j < s.len() && s[j] == '}' {
            Some(j + 1)
        } else {
            skip_object_members_exec(s, j, fuel - 1)
        }
    } else if c == '[' {
        let j = ws_end(s, i + 1);
        if j < s.len() && s[j] == ']' {
            Some(j + 1)
        } else {
            skip_array_items_exec(s, j, fuel - 1)
        }
    } else if null_at_exec(s, i) {
        Some(i + 4)
    } else if true_at_exec(s, i) {
        Some(i + 4)
    } else if false_at_exec(s, i) {
        Some(i + 5)
    } else {
        skip_number_exec(s, i)
    }
}

/// The members of an unknown key's object, scanned to the closing brace.
fn skip_object_members_exec(s: &Vec<char>, i: usize, fuel: usize) -> (r: Option<usize>)
    requires
        i <= s@.len(),
    ensures
        match r {
            Some(n) => skip_object_members(s@, i as int, fuel as nat) == Some(n as int) && n
                <= s@.len(),
            None => skip_object_members(s@, i as int, fuel as nat) is None,
        },
    decreases fuel,
{
    if fuel == 0 {
        return None;
    }
    match parse_string_exec(s, i) {
        None => None,
        Some((key, j)) => {
            proof {
                lemma_string_bounds(s@, i as int);
            }
            let k = ws_end(s, j);
            if !(k < s.len() && s[k] == ':') {
                return None;
            }
            let m = ws_end(s, k + 1);
            match skip_value_exec(s, m, fuel - 1) {
                None => None,
                Some(n) => {
                    let p = ws_end(s, n);
                    if p < s.len() && s[p] == ',' {
                        let q = ws_end(s, p + 1);
                        skip_object_members_exec(s, q, fuel - 1)
                    } else if p < s.len() && s[p] == '}' {
                        Some(p + 1)
                    } else {
                        None
                    }
                },
            }
        },
    }
}

/// The items of an unknown key's array, scanned to the closing bracket.
fn skip_array_items_exec(s: &Vec<char>, i: usize, fuel: usize) -> (r: Option<usize>)
    requires
        i <= s@.len(),
    ensures
        match r {
            Some(n) => skip_array_items(s@, i as int, fuel as nat) == Some(n as int) && n
                <= s@.len(),
            None => skip_array_items(s@, i as int, fuel as nat) is None,
        },
    decreases fuel,
{
    if fuel == 0 {
        return None;
    }
    match skip_value_exec(s, i, fuel - 1) {
        None => None,
        Some(n) => {
            let p = ws_end(s, n);
            if p < s.len() && s[p] == ',' {
                let q = ws_end(s, p + 1);
                skip_array_items_exec(s, q, fuel - 1)
            } else if p < s.len() && s[p] == ']' {
                Some(p + 1)
            } else {
                None
            }
        },
    }
}

/// No key named yet.
fn no_keys_seen_exec() -> (r: DocSeen)
    ensures
        r == no_keys_seen(),
{
    DocSeen {
        buttons_per_row: false,
        column_spacing: false,
        row_spacing: false,
        delay_before_closing: false,
        buttons: false,
    }
}

/// Whether the literal `null` stands at position `i`.
fn null_at_exec(s: &Vec<char>, i: usize) -> (r: bool)
    requires
        i <= s@.len(),
    ensures
        r == null_at(s@, i as int),
{
    i < s.len() && s.len() - i > 3 && s[i] == 'n' && s[i + 1] == 'u' && s[i + 2] == 'l' && s[i + 3]
        == 'l'
}

/// One `"key": value` pair of the settings object.
fn parse_doc_pair_exec(s: &Vec<char>, i: usize, raw: RawSettings, seen: DocSeen) -> (r: Option<
    (RawSettings, DocSeen, usize),
>)
    ensures
        match r {
            Some((r2, seen2, j)) => parse_doc_pair(s@, i as int, raw@, seen) == Some(
                (r2@, seen2, j as int),
            ) && j <= s@.len(),
            None => parse_doc_pair(s@, i as int, raw@, seen) is None,
        },
{
    let ghost rm = raw@;
    match parse_string_exec(s, i) {
        None => None,
        Some((key, j)) => {
            proof {
                lemma_string_bounds(s@, i as int);
            }
            let k = ws_end(s, j);
            if !(k < s.len() && s[k] == ':') {
                return None;
            }
            let m = ws_end(s, k + 1);
            if eq_lit(&key, "buttons_per_row") {
                if seen.buttons_per_row {
                    None
                } else if null_at_exec(s, m) {
                    Some((raw, DocSeen { buttons_per_row: true, ..seen }, m + 4))
                } else {
                    match parse_number_exec(s, m) {
                        Some((v, n)) => {
                            proof {
                                lemma_number_bounds(s@, m as int);
                            }
                            Some(
                                (
                                    RawSettings { buttons_per_row: Some(v), ..raw },
                                    DocSeen { buttons_per_row: true, ..seen },
                                    n,
                                ),
                            )
                        },
                        None => None,
                    }
                }
            } else if eq_lit(&key, "column_spacing") {
                if seen.column_spacing {
                    None
                } else if null_at_exec(s, m) {
                    Some((raw, DocSeen { column_spacing: true, ..seen }, m + 4))
                } else {
                    match parse_number_exec(s, m) {
                        Some((v, n)) => {
                            proof {
                                lemma_number_bounds(s@, m as int);
                            }
                            Some(
                                (
                                    RawSettings { column_spacing: Some(v), ..raw },
                                    DocSeen { column_spacing: true, ..seen },
                                    n,
                                ),
                            )
                        },
                        None => None,
                    }
                }
            } else if eq_lit(&key, "row_spacing") {
                if seen.row_spacing {
                    None
                } else if null_at_exec(s, m) {
                    Some((raw, DocSeen { row_spacing: true, ..seen }, m + 4))
                } else {
                    match parse_number_exec(s, m) {
                        Some((v, n)) => {
                            proof {
                                lemma_number_bounds(s@, m as int);
                            }
                            Some(
                                (
                                    RawSettings { row_spacing: Some(v), ..raw },
                                    DocSeen { row_spacing: true, ..seen },
                                    n,
                                ),
                            )
                        },
                        None => None,
                    }
                }
            } else if eq_lit(&key, "delay_before_closing") {
                if seen.delay_before_closing {
                    None
                } else if null_at_exec(s, m) {
                    Some((raw, DocSeen { delay_before_closing: true, ..seen }, m + 4))
                } else {
                    match parse_number_exec(s, m) {
                        Some((v, n)) => {
                            proof {
                                lemma_number_bounds(s@, m as int);
                            }
                            Some(
                                (
                                    RawSettings { delay_before_closing: Some(v), ..raw },
                                    DocSeen { delay_before_closing: true, ..seen },
                                    n,
                                ),
                            )
                        },
                        None => None,
                    }
                }
            } else if eq_lit(&key, "buttons") {
                if seen.buttons {
                    None
                } else if null_at_exec(s, m) {
                    Some((raw, DocSeen { buttons: true, ..seen }, m + 4))
                } else {
                    match parse_button_list_exec(s, m) {
                        Some((bs, n)) => Some(
                            (
                                RawSettings { buttons: Some(bs), ..raw },
                                DocSeen { buttons: true, ..seen },
                                n,
                            ),
                        ),
                        None => None,
                    }
                }
            } else {
                let fuel = s.len() - m + 1;
                match skip_value_exec(s, m, fuel) {
                    Some(n) => Some((raw, seen, n)),
                    None => None,
                }
            }
        },
    }
}

/// The members of the settings object, from the first key to the closing
/// brace.
fn parse_doc_members_exec(s: &Vec<char>, i: usize, raw: RawSettings, seen: DocSeen) -> (r: Option<
    (RawSettings, usize),
>)
    ensures
        match r {
            Some((r2, j)) => parse_doc_members(s@, i as int, raw@, seen) == Some((r2@, j as int))
                && j <= s@.len(),
            None => parse_doc_members(s@, i as int, raw@, seen) is None,
        },
    decreases s@.len() - i,
{
    let ghost rm = raw@;
    match parse_doc_pair_exec(s, i, raw, seen) {
        None => None,
        Some((r2, seen2, j)) => {
            proof {
                lemma_doc_pair_bounds(s@, i as int, rm, seen);
            }
            let k = ws_end(s, j);
            if k < s.len() && s[k] == ',' {
                let m = ws_end(s, k + 1);
                parse_doc_members_exec(s, m, r2, seen2)
            } else if k < s.len() && s[k] == '}' {
                Some((r2, k + 1))
            } else {
                None
            }
        },
    }
}

/// Parse a settings document: `Ok` with its raw settings exactly when the
/// grammar of [`parse_doc`] accepts the text, malformed otherwise.
pub fn parse_settings_doc(document: &str) -> (r: Result<RawSettings, ParseError>)
    ensures
        (r matches Ok(raw) ==> parse_doc(document@) == Some(raw@)),
        r is Err <==> parse_doc(document@) is None,
{
    let s = str_to_chars(document);
    let i = ws_end(&s, 0);
    if !(i < s.len() && s[i] == '{') {
        return Err(ParseError);
    }
    let j = ws_end(&s, i + 1);
    if j < s.len() && s[j] == '}' {
        let k = ws_end(&s, j + 1);
        if k == s.len() {
            let raw = RawSettings::empty();
            proof {
                assert(raw@ == empty_raw_model());
            }
            Ok(raw)
        } else {
            Err(ParseError)
        }
    } else {
        let ghost em = empty_raw_model();
        let empty = RawSettings::empty();
        proof {
            assert(empty@ == em);
        }
        match parse_doc_members_exec(&s, j, empty, no_keys_seen_exec()) {
            Some((raw, k)) => {
                let m = ws_end(&s, k);
                if m == s.len() {
                    Ok(raw)
                } else {
                    Err(ParseError)
                }
            },
            None => Err(ParseError),
        }
    }
}

/// Parse a button-list text, as the CLI override carries it: `Ok` with
/// its buttons exactly when the grammar of [`parse_buttons_text`] accepts
/// the text, malformed otherwise.
pub fn parse_buttons_json(text: &str) -> (r: Result<Vec<ButtonInfo>, ParseError>)
    ensures
        (r matches Ok(bs) ==> parse_buttons_text(text@) == Some(buttons_view(bs@))),
        r is Err <==> parse_buttons_text(text@) is None,
{
    let s = str_to_chars(text);
    let i = ws_end(&s, 0);
    match parse_button_list_exec(&s, i) {
        Some((bs, j)) => {
            let k = ws_end(&s, j);
            if k == s.len() {
                Ok(bs)
            } else {
                Err(ParseError)
            }
        },
        None => Err(ParseError),
    }
}

} // verus!
