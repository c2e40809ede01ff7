//! The settings document grammar.
//!
//! A settings document is a structured text object with optional keys
//! `buttons_per_row`, `column_spacing`, `row_spacing` and
//! `delay_before_closing` (unsigned integers that must fit 32 bits) and
//! `buttons` (an array of button objects whose `id`, `command`, `icon` and
//! `text` are strings and whose `keybind` is a string of exactly one
//! character). Keys may come in any order, any settings key may carry
//! `null` to leave its field absent, and unknown keys are ignored — their
//! values scanned past without interpretation; a repeated settings key, a
//! missing button field, a number with a leading zero or out of range, an
//! unterminated or ill-escaped string, and trailing content after the
//! object are all malformed. Strings know the escapes `\"`, `\\`, `\/`,
//! `\n`, `\t`, `\r`, `\b`, `\f` and `\u` followed by four hexadecimal
//! digits naming a Unicode scalar value; raw control characters and lone
//! surrogates are malformed.
//!
//! The functions here define the grammar over character sequences; the
//! executable parser in [`crate::parse`] is proved to follow them exactly.

use vstd::prelude::*;
use crate::settings::{ButtonModel, RawSettingsModel};

verus! {

/// Document whitespace: space, tab, line feed, carriage return.
pub open spec fn is_ws(c: char) -> bool {
    c == ' ' || c == '\t' || c == '\n' || c == '\r'
}

/// The first position at or after `i` holding no whitespace.
pub open spec fn skip_ws(s: Seq<char>, i: int) -> int
    decreases s.len() - i,
{
    if 0 <= i < s.len() && is_ws(s[i]) {
        skip_ws(s, i + 1)
    } else {
        i
    }
}

/// Skipping whitespace never moves backwards nor past the end.
pub proof fn lemma_skip_ws_bounds(s: Seq<char>, i: int)
    requires
        0 <= i <= s.len(),
    ensures
        i <= skip_ws(s, i) <= s.len(),
    decreases s.len() - i,
{
    if i < s.len() && is_ws(s[i]) {
        lemma_skip_ws_bounds(s, i + 1);
    }
}

/// What a string escape code stands for, if it is one.
pub open spec fn unescape(c: char) -> Option<char> {
    if c == '"' {
        Some('"')
    } else if c == '\\' {
        Some('\\')
    } else if c == '/' {
        Some('/')
    } else if c == 'n' {
        Some('\n')
    } else if c == 't' {
        Some('\t')
    } else if c == 'r' {
        Some('\r')
    } else if c == 'b' {
        Some('\u{0008}')
    } else if c == 'f' {
        Some('\u{000C}')
    } else {
        None
    }
}

/// A control character: forbidden raw inside a string.
pub open spec fn is_control(c: char) -> bool {
    (c as u32) < 0x20
}

/// A hexadecimal digit, either case.
pub open spec fn is_hex_digit(c: char) -> bool {
    (0x30 <= c as u32 && c as u32 <= 0x39) || (0x61 <= c as u32 && c as u32 <= 0x66) || (0x41
        <= c as u32 && c as u32 <= 0x46)
}

/// The value of a hexadecimal digit.
pub open spec fn hex_val(c: char) -> int {
    if 0x30 <= c as u32 && c as u32 <= 0x39 {
        c as u32 - 0x30
    } else if 0x61 <= c as u32 && c as u32 <= 0x66 {
        c as u32 - 0x57
    } else {
        c as u32 - 0x37
    }
}

/// The code point named by the four hexadecimal digits at `i`.
pub open spec fn hex4_code(s: Seq<char>, i: int) -> int {
    hex_val(s[i]) * 0x1000 + hex_val(s[i + 1]) * 0x100 + hex_val(s[i + 2]) * 0x10 + hex_val(
        s[i + 3],
    )
}

/// A Unicode scalar value: a code point that is a character, not a
/// surrogate.
pub open spec fn is_scalar_code(n: int) -> bool {
    (0 <= n && n < 0xD800) || (0xE000 <= n && n <= 0x10FFFF)
}

/// Whether position `i` starts a well-formed `\u` escape: `u`, then four
/// hexadecimal digits naming a Unicode scalar value. A lone surrogate is
/// malformed.
pub open spec fn hex_escape_at(s: Seq<char>, i: int) -> bool {
    &&& i + 5 < s.len()
    &&& is_hex_digit(s[i + 2])
    &&& is_hex_digit(s[i + 3])
    &&& is_hex_digit(s[i + 4])
    &&& is_hex_digit(s[i + 5])
    &&& is_scalar_code(hex4_code(s, i + 2))
}

/// The body of a string, starting after the opening quote: the decoded
/// content and the position after the closing quote.
pub open spec fn parse_string_body(s: Seq<char>, i: int) -> Option<(Seq<char>, int)>
    decreases s.len() - i,
{
    if i < 0 || i >= s.len() {
        None
    } else if s[i] == '"' {
        Some((Seq::empty(), i + 1))
    } else if s[i] == '\\' {
        if i + 1 < s.len() && s[i + 1] == 'u' {
            if hex_escape_at(s, i) {
                match parse_string_body(s, i + 6) {
                    Some((t, j)) => Some((seq![hex4_code(s, i + 2) as char] + t, j)),
                    None => None,
                }
            } else {
                None
            }
        } else if i + 1 < s.len() {
            match unescape(s[i + 1]) {
                Some(e) => match parse_string_body(s, i + 2) {
                    Some((t, j)) => Some((seq![e] + t, j)),
                    None => None,
                },
                None => None,
            }
        } else {
            None
        }
    } else if is_control(s[i]) {
        None
    } else {
        match parse_string_body(s, i + 1) {
            Some((t, j)) => Some((seq![s[i]] + t, j)),
            None => None,
        }
    }
}

/// A parsed string body always makes progress and stays inside the text.
pub proof fn lemma_string_body_bounds(s: Seq<char>, i: int)
    requires
        parse_string_body(s, i) is Some,
    ensures
        i < (parse_string_body(s, i)->0).1 <= s.len(),
    decreases s.len() - i,
{
    if 0 <= i < s.len() && s[i] != '"' {
        if s[i] == '\\' {
            if i + 1 < s.len() && s[i + 1] == 'u' {
                lemma_string_body_bounds(s, i + 6);
            } else {
                lemma_string_body_bounds(s, i + 2);
            }
        } else {
            lemma_string_body_bounds(s, i + 1);
        }
    }
}

/// A whole string: an opening quote, a body, a closing quote.
pub open spec fn parse_string(s: Seq<char>, i: int) -> Option<(Seq<char>, int)> {
    if 0 <= i < s.len() && s[i] == '"' {
        parse_string_body(s, i + 1)
    } else {
        None
    }
}

/// A parsed string always makes progress and stays inside the text.
pub proof fn lemma_string_bounds(s: Seq<char>, i: int)
    requires
        parse_string(s, i) is Some,
    ensures
        i < (parse_string(s, i)->0).1 <= s.len(),
{
    lemma_string_body_bounds(s, i + 1);
}

/// A decimal digit.
pub open spec fn is_digit(c: char) -> bool {
    0x30 <= c as u32 <= 0x39
}

/// The value of a decimal digit.
pub open spec fn digit_val(c: char) -> int {
    c as u32 - 0x30
}

/// Digits from `i` on, folded onto `acc`; more than 32 bits is malformed.
pub open spec fn parse_digits(s: Seq<char>, i: int, acc: int) -> Option<(int, int)>
    decreases s.len() - i,
{
    if 0 <= i < s.len() && is_digit(s[i]) {
        let acc2 = acc * 10 + digit_val(s[i]);
        if acc2 > 0xFFFF_FFFF {
            None
        } else {
            parse_digits(s, i + 1, acc2)
        }
    } else {
        Some((acc, i))
    }
}

/// Folding digits never moves backwards, never leaves the text, and keeps
/// the value in 32 bits.
pub proof fn lemma_digits_bounds(s: Seq<char>, i: int, acc: int)
    requires
        0 <= i <= s.len(),
        0 <= acc <= 0xFFFF_FFFF,
        parse_digits(s, i, acc) is Some,
    ensures
        i <= (parse_digits(s, i, acc)->0).1 <= s.len(),
        0 <= (parse_digits(s, i, acc)->0).0 <= 0xFFFF_FFFF,
    decreases s.len() - i,
{
    if i < s.len() && is_digit(s[i]) {
        let acc2 = acc * 10 + digit_val(s[i]);
        if acc2 <= 0xFFFF_FFFF {
            lemma_digits_bounds(s, i + 1, acc2);
        }
    }
}

/// An unsigned number: decimal digits without a leading zero, fitting
/// 32 bits.
pub open spec fn parse_number(s: Seq<char>, i: int) -> Option<(u32, int)> {
    if !(0 <= i < s.len() && is_digit(s[i])) {
        None
    } else if s[i] == '0' {
        if i + 1 < s.len() && is_digit(s[i + 1]) {
            None
        } else {
            Some((0u32, i + 1))
        }
    } else {
        match parse_digits(s, i, 0) {
            Some((v, j)) => Some((v as u32, j)),
            None => None,
        }
    }
}

/// A parsed number always makes progress and stays inside the text.
pub proof fn lemma_number_bounds(s: Seq<char>, i: int)
    requires
        parse_number(s, i) is Some,
    ensures
        i < (parse_number(s, i)->0).1 <= s.len(),
{
    if 0 <= i < s.len() && is_digit(s[i]) && s[i] != '0' {
        let acc2 = 0 * 10 + digit_val(s[i]);
        assert(0 <= acc2 <= 9);
        assert(parse_digits(s, i, 0) == parse_digits(s, i + 1, acc2));
        lemma_digits_bounds(s, i + 1, acc2);
    }
}

/// Whether the literal `true` stands at position `i`.
pub open spec fn true_at(s: Seq<char>, i: int) -> bool {
    &&& i + 3 < s.len()
    &&& s[i] == 't'
    &&& s[i + 1] == 'r'
    &&& s[i + 2] == 'u'
    &&& s[i + 3] == 'e'
}

/// Whether the literal `false` stands at position `i`.
pub open spec fn false_at(s: Seq<char>, i: int) -> bool {
    &&& i + 4 < s.len()
    &&& s[i] == 'f'
    &&& s[i + 1] == 'a'
    &&& s[i + 2] == 'l'
    &&& s[i + 3] == 's'
    &&& s[i + 4] == 'e'
}

/// The first position at or after `i` holding no digit.
pub open spec fn skip_digits(s: Seq<char>, i: int) -> int
    decreases s.len() - i,
{
    if 0 <= i < s.len() && is_digit(s[i]) {
        skip_digits(s, i + 1)
    } else {
        i
    }
}

/// Skipping digits never moves backwards nor past the end.
pub proof fn lemma_skip_digits_bounds(s: Seq<char>, i: int)
    requires
        0 <= i <= s.len(),
    ensures
        i <= skip_digits(s, i) <= s.len(),
    decreases s.len() - i,
{
    if i < s.len() && is_digit(s[i]) {
        lemma_skip_digits_bounds(s, i + 1);
    }
}

/// A numeric value of an unknown key, scanned but not interpreted: an
/// optional minus, an integer part without a leading zero, an optional
/// fraction, an optional exponent. The position after it.
pub open spec fn skip_number(s: Seq<char>, i: int) -> Option<int> {
    let i0 = if 0 <= i < s.len() && s[i] == '-' {
        i + 1
    } else {
        i
    };
    if !(0 <= i0 < s.len() && is_digit(s[i0])) {
        None
    } else {
        let j = if s[i0] == '0' {
            i0 + 1
        } else {
            skip_digits(s, i0)
        };
        let frac = if j < s.len() && s[j] == '.' {
            if j + 1 < s.len() && is_digit(s[j + 1]) {
                Some(skip_digits(s, j + 1))
            } else {
                None
            }
        } else {
            Some(j)
        };
        match frac {
            None => None,
            Some(k) => {
                if k < s.len() && (s[k] == 'e' || s[k] == 'E') {
                    let e0 = if k + 1 < s.len() && (s[k + 1] == '+' || s[k + 1] == '-') {
                        k + 2
                    } else {
                        k + 1
                    };
                    if e0 < s.len() && is_digit(s[e0]) {
                        Some(skip_digits(s, e0))
                    } else {
                        None
                    }
                } else {
                    Some(k)
                }
            },
        }
    }
}

/// A scanned number always makes progress and stays inside the text.
pub proof fn lemma_skip_number_bounds(s: Seq<char>, i: int)
    requires
        0 <= i,
        skip_number(s, i) is Some,
    ensures
        i < skip_number(s, i)->0 <= s.len(),
{
    let i0 = if i < s.len() && s[i] == '-' {
        i + 1
    } else {
        i
    };
    lemma_skip_digits_bounds(s, i0);
    assert(0 <= i0 < s.len() && is_digit(s[i0]));
    assert(skip_digits(s, i0) == skip_digits(s, i0 + 1));
    lemma_skip_digits_bounds(s, i0 + 1);
    let j = if s[i0] == '0' {
        i0 + 1
    } else {
        skip_digits(s, i0)
    };
    if j < s.len() && s[j] == '.' {
        if j + 1 < s.len() && is_digit(s[j + 1]) {
            lemma_skip_digits_bounds(s, j + 1);
        }
    }
    let frac = if j < s.len() && s[j] == '.' {
        if j + 1 < s.len() && is_digit(s[j + 1]) {
            Some(skip_digits(s, j + 1))
        } else {
            None
        }
    } else {
        Some(j)
    };
    match frac {
        None => {},
        Some(k) => {
            if k < s.len() && (s[k] == 'e' || s[k] == 'E') {
                let e0 = if k + 1 < s.len() && (s[k + 1] == '+' || s[k + 1] == '-') {
                    k + 2
                } else {
                    k + 1
                };
                if e0 < s.len() && is_digit(s[e0]) {
                    lemma_skip_digits_bounds(s, e0);
                    assert(skip_digits(s, e0) == skip_digits(s, e0 + 1));
                    lemma_skip_digits_bounds(s, e0 + 1);
                }
            }
        },
    }
}

/// Any value of an unknown key — a string, number, literal, object or
/// array — scanned without interpretation: the position after it. `fuel`
/// bounds the recursion; since every nested scan starts strictly further
/// in, one more than the remaining length always suffices, and the
/// callers pass exactly that.
pub open spec fn skip_value(s: Seq<char>, i: int, fuel: nat) -> Option<int>
    decreases fuel,
{
    if fuel == 0 {
        None
    } else if !(0 <= i < s.len()) {
        None
    } else if s[i] == '"' {
        match parse_string(s, i) {
            Some((t, j)) => Some(j),
            None => None,
        }
    } else if s[i] == '{' {
        let j = skip_ws(s, i + 1);
        if j < s.len() && s[j] == '}' {
            Some(j + 1)
        } else {
            skip_object_members(s, j, (fuel - 1) as nat)
        }
    } else if s[i] == '[' {
        let j = skip_ws(s, i + 1);
        if j < s.len() && s[j] == ']' {
            Some(j + 1)
        } else {
            skip_array_items(s, j, (fuel - 1) as nat)
        }
    } else if null_at(s, i) {
        Some(i + 4)
    } else if true_at(s, i) {
        Some(i + 4)
    } else if false_at(s, i) {
        Some(i + 5)
    } else {
        skip_number(s, i)
    }
}

/// The members of an unknown key's object, scanned to the closing brace.
pub open spec fn skip_object_members(s: Seq<char>, i: int, fuel: nat) -> Option<int>
    decreases fuel,
{
    if fuel == 0 {
        None
    } else {
        match parse_string(s, i) {
            None => None,
            Some((key, j)) => {
                let k = skip_ws(s, j);
                if !(k < s.len() && s[k] == ':') {
                    None
                } else {
                    let m = skip_ws(s, k + 1);
                    match skip_value(s, m, (fuel - 1) as nat) {
                        None => None,
                        Some(n) => {
                            let p = skip_ws(s, n);
                            if p < s.len() && s[p] == ',' {
                                skip_object_members(s, skip_ws(s, p + 1), (fuel - 1) as nat)
                            } else if p < s.len() && s[p] == '}' {
                                Some(p + 1)
                            } else {
                                None
                            }
                        },
                    }
                }
            },
        }
    }
}

/// The items of an unknown key's array, scanned to the closing bracket.
pub open spec fn skip_array_items(s: Seq<char>, i: int, fuel: nat) -> Option<int>
    decreases fuel,
{
    if fuel == 0 {
        None
    } else {
        match skip_value(s, i, (fuel - 1) as nat) {
            None => None,
            Some(n) => {
                let p = skip_ws(s, n);
                if p < s.len() && s[p] == ',' {
                    skip_array_items(s, skip_ws(s, p + 1), (fuel - 1) as nat)
                } else if p < s.len() && s[p] == ']' {
                    Some(p + 1)
                } else {
                    None
                }
            },
        }
    }
}

/// A scanned value always makes progress and stays inside the text.
pub proof fn lemma_skip_value_bounds(s: Seq<char>, i: int, fuel: nat)
    requires
        0 <= i,
        skip_value(s, i, fuel) is Some,
    ensures
        i < skip_value(s, i, fuel)->0 <= s.len(),
    decreases fuel,
{
    if fuel > 0 && 0 <= i < s.len() {
        if s[i] == '"' {
            lemma_string_bounds(s, i);
        } else if s[i] == '{' {
            lemma_skip_ws_bounds(s, i + 1);
            let j = skip_ws(s, i + 1);
            if !(j < s.len() && s[j] == '}') {
                lemma_skip_object_members_bounds(s, j, (fuel - 1) as nat);
            }
        } else if s[i] == '[' {
            lemma_skip_ws_bounds(s, i + 1);
            let j = skip_ws(s, i + 1);
            if !(j < s.len() && s[j] == ']') {
                lemma_skip_array_items_bounds(s, j, (fuel - 1) as nat);
            }
        } else if null_at(s, i) || true_at(s, i) || false_at(s, i) {
        } else {
            lemma_skip_number_bounds(s, i);
        }
    }
}

/// Scanned object members always make progress and stay inside the text.
pub proof fn lemma_skip_object_members_bounds(s: Seq<char>, i: int, fuel: nat)
    requires
        0 <= i,
        skip_object_members(s, i, fuel) is Some,
    ensures
        i < skip_object_members(s, i, fuel)->0 <= s.len(),
    decreases fuel,
{
    if fuel > 0 {
        match parse_string(s, i) {
            None => {},
            Some((key, j)) => {
                lemma_string_bounds(s, i);
                lemma_skip_ws_bounds(s, j);
                let k = skip_ws(s, j);
                if k < s.len() && s[k] == ':' {
                    let m = skip_ws(s, k + 1);
                    lemma_skip_ws_bounds(s, k + 1);
                    match skip_value(s, m, (fuel - 1) as nat) {
                        None => {},
                        Some(n) => {
                            lemma_skip_value_bounds(s, m, (fuel - 1) as nat);
                            lemma_skip_ws_bounds(s, n);
                            let p = skip_ws(s, n);
                            if p < s.len() && s[p] == ',' {
                                lemma_skip_ws_bounds(s, p + 1);
                                lemma_skip_object_members_bounds(
                                    s,
                                    skip_ws(s, p + 1),
                                    (fuel - 1) as nat,
                                );
                            }
                        },
                    }
                }
            },
        }
    }
}

/// Scanned array items always make progress and stay inside the text.
pub proof fn lemma_skip_array_items_bounds(s: Seq<char>, i: int, fuel: nat)
    requires
        0 <= i,
        skip_array_items(s, i, fuel) is Some,
    ensures
        i < skip_array_items(s, i, fuel)->0 <= s.len(),
    decreases fuel,
{
    if fuel > 0 {
        match skip_value(s, i, (fuel - 1) as nat) {
            None => {},
            Some(n) => {
                lemma_skip_value_bounds(s, i, (fuel - 1) as nat);
                lemma_skip_ws_bounds(s, n);
                let p = skip_ws(s, n);
                if p < s.len() && s[p] == ',' {
                    lemma_skip_ws_bounds(s, p + 1);
                    lemma_skip_array_items_bounds(s, skip_ws(s, p + 1), (fuel - 1) as nat);
                }
            },
        }
    }
}

/// The five fields a button object must fill, while being read.
pub struct RawButton {
    pub id: Option<Seq<char>>,
    pub command: Option<Seq<char>>,
    pub icon: Option<Seq<char>>,
    pub text: Option<Seq<char>>,
    pub keybind: Option<char>,
}

/// A button object with no field read yet.
pub open spec fn empty_raw_button() -> RawButton {
    RawButton { id: None, command: None, icon: None, text: None, keybind: None }
}

/// Store one known button field under its key: a repeated key is
/// malformed, and `keybind` must be exactly one character.
pub open spec fn apply_button_field(p: RawButton, key: Seq<char>, val: Seq<char>) -> Option<
    RawButton,
> {
    if key == "id"@ {
        if p.id is Some {
            None
        } else {
            Some(RawButton { id: Some(val), ..p })
        }
    } else if key == "command"@ {
        if p.command is Some {
            None
        } else {
            Some(RawButton { command: Some(val), ..p })
        }
    } else if key == "icon"@ {
        if p.icon is Some {
            None
        } else {
            Some(RawButton { icon: Some(val), ..p })
        }
    } else if key == "text"@ {
        if p.text is Some {
            None
        } else {
            Some(RawButton { text: Some(val), ..p })
        }
    } else if key == "keybind"@ {
        if p.keybind is Some {
            None
        } else if val.len() == 1 {
            Some(RawButton { keybind: Some(val[0]), ..p })
        } else {
            None
        }
    } else {
        None
    }
}

/// The keys a button object reads; anything else is ignored, its value
/// scanned and dropped.
pub open spec fn known_button_key(key: Seq<char>) -> bool {
    key == "id"@ || key == "command"@ || key == "icon"@ || key == "text"@ || key == "keybind"@
}

/// One `"key": value` pair of a button object, starting at the key's
/// opening quote: a known key takes a string, an unknown key's value is
/// scanned and dropped.
pub open spec fn parse_button_pair(s: Seq<char>, i: int, p: RawButton) -> Option<(RawButton, int)> {
    match parse_string(s, i) {
        None => None,
        Some((key, j)) => {
            let k = skip_ws(s, j);
            if !(k < s.len() && s[k] == ':') {
                None
            } else {
                let m = skip_ws(s, k + 1);
                if known_button_key(key) {
                    match parse_string(s, m) {
                        None => None,
                        Some((val, n)) => match apply_button_field(p, key, val) {
                            Some(p2) => Some((p2, n)),
                            None => None,
                        },
                    }
                } else {
                    match skip_value(s, m, (s.len() - m + 1) as nat) {
                        Some(n) => Some((p, n)),
                        None => None,
                    }
                }
            }
        },
    }
}

/// A parsed button pair always makes progress and stays inside the text.
pub proof fn lemma_button_pair_bounds(s: Seq<char>, i: int, p: RawButton)
    requires
        0 <= i,
        parse_button_pair(s, i, p) is Some,
    ensures
        i < (parse_button_pair(s, i, p)->0).1 <= s.len(),
{
    lemma_string_bounds(s, i);
    let j = (parse_string(s, i)->0).1;
    lemma_skip_ws_bounds(s, j);
    let k = skip_ws(s, j);
    let m = skip_ws(s, k + 1);
    lemma_skip_ws_bounds(s, k + 1);
    if parse_string(s, m) is Some {
        lemma_string_bounds(s, m);
    }
    if skip_value(s, m, (s.len() - m + 1) as nat) is Some {
        lemma_skip_value_bounds(s, m, (s.len() - m + 1) as nat);
    }
}

/// The members of a button object from the first key on, ending at the
/// closing brace.
pub open spec fn parse_button_members(s: Seq<char>, i: int, p: RawButton) -> Option<
    (RawButton, int),
>
    decreases s.len() - i,
    via parse_button_members_decreases
{
    match parse_button_pair(s, i, p) {
        None => None,
        Some((p2, j)) => {
            let k = skip_ws(s, j);
            if k < s.len() && s[k] == ',' {
                parse_button_members(s, skip_ws(s, k + 1), p2)
            } else if k < s.len() && s[k] == '}' {
                Some((p2, k + 1))
            } else {
                None
            }
        },
    }
}

#[via_fn]
proof fn parse_button_members_decreases(s: Seq<char>, i: int, p: RawButton) {
    if i < 0 {
        assert(parse_string(s, i) is None);
    } else {
        match parse_button_pair(s, i, p) {
            Some((p2, j)) => {
                lemma_button_pair_bounds(s, i, p);
                lemma_skip_ws_bounds(s, j);
                let k = skip_ws(s, j);
                if k < s.len() && s[k] == ',' {
                    lemma_skip_ws_bounds(s, k + 1);
                }
            },
            None => {},
        }
    }
}

/// Parsed button members always make progress and stay inside the text.
pub proof fn lemma_button_members_bounds(s: Seq<char>, i: int, p: RawButton)
    requires
        0 <= i,
        parse_button_members(s, i, p) is Some,
    ensures
        i < (parse_button_members(s, i, p)->0).1 <= s.len(),
    decreases s.len() - i,
{
    match parse_button_pair(s, i, p) {
        Some((p2, j)) => {
            lemma_button_pair_bounds(s, i, p);
            lemma_skip_ws_bounds(s, j);
            let k = skip_ws(s, j);
            if k < s.len() && s[k] == ',' {
                lemma_skip_ws_bounds(s, k + 1);
                lemma_button_members_bounds(s, skip_ws(s, k + 1), p2);
            }
        },
        None => {},
    }
}

/// A complete button: every field filled exactly once.
pub open spec fn complete_button(p: RawButton) -> Option<ButtonModel> {
    if p.id is Some && p.command is Some && p.icon is Some && p.text is Some && p.keybind
        is Some {
        Some(
            ButtonModel {
                id: p.id->0,
                command: p.command->0,
                icon: p.icon->0,
                text: p.text->0,
                keybind: p.keybind->0,
            },
        )
    } else {
        None
    }
}

/// A button object, starting at its opening brace: all five fields are
/// required, so an empty object is malformed.
pub open spec fn parse_button(s: Seq<char>, i: int) -> Option<(ButtonModel, int)> {
    if !(0 <= i < s.len() && s[i] == '{') {
        None
    } else {
        match parse_button_members(s, skip_ws(s, i + 1), empty_raw_button()) {
            None => None,
            Some((p, k)) => match complete_button(p) {
                Some(b) => Some((b, k)),
                None => None,
            },
        }
    }
}

/// A parsed button always makes progress and stays inside the text.
pub proof fn lemma_button_bounds(s: Seq<char>, i: int)
    requires
        parse_button(s, i) is Some,
    ensures
        i < (parse_button(s, i)->0).1 <= s.len(),
{
    lemma_skip_ws_bounds(s, i + 1);
    lemma_button_members_bounds(s, skip_ws(s, i + 1), empty_raw_button());
}

/// The items of a non-empty button array, ending at the closing bracket.
pub open spec fn parse_buttons_items(s: Seq<char>, i: int) -> Option<(Seq<ButtonModel>, int)>
    decreases s.len() - i,
    via parse_buttons_items_decreases
{
    match parse_button(s, i) {
        None => None,
        Some((b, j)) => {
            let k = skip_ws(s, j);
            if k < s.len() && s[k] == ',' {
                match parse_buttons_items(s, skip_ws(s, k + 1)) {
                    Some((bs, m)) => Some((seq![b] + bs, m)),
                    None => None,
                }
            } else if k < s.len() && s[k] == ']' {
                Some((seq![b], k + 1))
            } else {
                None
            }
        },
    }
}

#[via_fn]
proof fn parse_buttons_items_decreases(s: Seq<char>, i: int) {
    match parse_button(s, i) {
        Some((b, j)) => {
            lemma_button_bounds(s, i);
            lemma_skip_ws_bounds(s, j);
            let k = skip_ws(s, j);
            if k < s.len() && s[k] == ',' {
                lemma_skip_ws_bounds(s, k + 1);
            }
        },
        None => {},
    }
}

/// Parsed array items always make progress and stay inside the text.
pub proof fn lemma_buttons_items_bounds(s: Seq<char>, i: int)
    requires
        parse_buttons_items(s, i) is Some,
    ensures
        i < (parse_buttons_items(s, i)->0).1 <= s.len(),
    decreases s.len() - i,
{
    match parse_button(s, i) {
        Some((b, j)) => {
            lemma_button_bounds(s, i);
            lemma_skip_ws_bounds(s, j);
            let k = skip_ws(s, j);
            if k < s.len() && s[k] == ',' {
                lemma_skip_ws_bounds(s, k + 1);
                lemma_buttons_items_bounds(s, skip_ws(s, k + 1));
            }
        },
        None => {},
    }
}

/// A button array, starting at its opening bracket.
pub open spec fn parse_button_list(s: Seq<char>, i: int) -> Option<(Seq<ButtonModel>, int)> {
    if !(0 <= i < s.len() && s[i] == '[') {
        None
    } else {
        let j = skip_ws(s, i + 1);
        if j < s.len() && s[j] == ']' {
            Some((Seq::empty(), j + 1))
        } else {
            parse_buttons_items(s, j)
        }
    }
}

/// A parsed button array always makes progress and stays inside the text.
pub proof fn lemma_button_list_bounds(s: Seq<char>, i: int)
    requires
        parse_button_list(s, i) is Some,
    ensures
        i < (parse_button_list(s, i)->0).1 <= s.len(),
{
    lemma_skip_ws_bounds(s, i + 1);
    let j = skip_ws(s, i + 1);
    if !(j < s.len() && s[j] == ']') {
        lemma_buttons_items_bounds(s, j);
    }
}

/// A raw settings value with no field read yet.
pub open spec fn empty_raw_model() -> RawSettingsModel {
    RawSettingsModel {
        buttons_per_row: None,
        column_spacing: None,
        row_spacing: None,
        delay_before_closing: None,
        buttons: None,
    }
}

/// Which settings keys the object has named so far: a repeated key is
/// malformed even when its value was `null`, so presence is recorded
/// apart from the values.
#[derive(Clone, Copy, Debug)]
pub struct DocSeen {
    pub buttons_per_row: bool,
    pub column_spacing: bool,
    pub row_spacing: bool,
    pub delay_before_closing: bool,
    pub buttons: bool,
}

/// No key named yet.
pub open spec fn no_keys_seen() -> DocSeen {
    DocSeen {
        buttons_per_row: false,
        column_spacing: false,
        row_spacing: false,
        delay_before_closing: false,
        buttons: false,
    }
}

/// Whether the literal `null` stands at position `i`.
pub open spec fn null_at(s: Seq<char>, i: int) -> bool {
    &&& i + 3 < s.len()
    &&& s[i] == 'n'
    &&& s[i + 1] == 'u'
    &&& s[i + 2] == 'l'
    &&& s[i + 3] == 'l'
}

/// One `"key": value` pair of the settings object, starting at the key's
/// opening quote: the four scalar keys take a number, `buttons` takes an
/// array, any known key may carry `null` to leave the field absent, and an
/// unknown key's value is scanned and dropped. A repeated known key is
/// malformed.
pub open spec fn parse_doc_pair(s: Seq<char>, i: int, r: RawSettingsModel, seen: DocSeen) -> Option<
    (RawSettingsModel, DocSeen, int),
> {
    match parse_string(s, i) {
        None => None,
        Some((key, j)) => {
            let k = skip_ws(s, j);
            if !(k < s.len() && s[k] == ':') {
                None
            } else {
                let m = skip_ws(s, k + 1);
                if key == "buttons_per_row"@ {
                    if seen.buttons_per_row {
                        None
                    } else if null_at(s, m) {
                        Some((r, DocSeen { buttons_per_row: true, ..seen }, m + 4))
                    } else {
                        match parse_number(s, m) {
                            Some((v, n)) => Some(
                                (
                                    RawSettingsModel { buttons_per_row: Some(v), ..r },
                                    DocSeen { buttons_per_row: true, ..seen },
                                    n,
                                ),
                            ),
                            None => None,
                        }
                    }
                } else if key == "column_spacing"@ {
                    if seen.column_spacing {
                        None
                    } else if null_at(s, m) {
                        Some((r, DocSeen { column_spacing: true, ..seen }, m + 4))
                    } else {
                        match parse_number(s, m) {
                            Some((v, n)) => Some(
                                (
                                    RawSettingsModel { column_spacing: Some(v), ..r },
                                    DocSeen { column_spacing: true, ..seen },
                                    n,
                                ),
                            ),
                            None => None,
                        }
                    }
                } else if key == "row_spacing"@ {
                    if seen.row_spacing {
                        None
                    } else if null_at(s, m) {
                        Some((r, DocSeen { row_spacing: true, ..seen }, m + 4))
                    } else {
                        match parse_number(s, m) {
                            Some((v, n)) => Some(
                                (
                                    RawSettingsModel { row_spacing: Some(v), ..r },
                                    DocSeen { row_spacing: true, ..seen },
                                    n,
                                ),
                            ),
                            None => None,
                        }
                    }
                } else if key == "delay_before_closing"@ {
                    if seen.delay_before_closing {
                        None
                    } else if null_at(s, m) {
                        Some((r, DocSeen { delay_before_closing: true, ..seen }, m + 4))
                    } else {
                        match parse_number(s, m) {
                            Some((v, n)) => Some(
                                (
                                    RawSettingsModel { delay_before_closing: Some(v), ..r },
                                    DocSeen { delay_before_closing: true, ..seen },
                                    n,
                                ),
                            ),
                            None => None,
                        }
                    }
                } else if key == "buttons"@ {
                    if seen.buttons {
                        None
                    } else if null_at(s, m) {
                        Some((r, DocSeen { buttons: true, ..seen }, m + 4))
                    } else {
                        match parse_button_list(s, m) {
                            Some((bs, n)) => Some(
                                (
                                    RawSettingsModel { buttons: Some(bs), ..r },
                                    DocSeen { buttons: true, ..seen },
                                    n,
                                ),
                            ),
                            None => None,
                        }
                    }
                } else {
                    match skip_value(s, m, (s.len() - m + 1) as nat) {
                        Some(n) => Some((r, seen, n)),
                        None => None,
                    }
                }
            }
        },
    }
}

/// A parsed settings pair always makes progress and stays inside the text.
pub proof fn lemma_doc_pair_bounds(s: Seq<char>, i: int, r: RawSettingsModel, seen: DocSeen)
    requires
        0 <= i,
        parse_doc_pair(s, i, r, seen) is Some,
    ensures
        i < (parse_doc_pair(s, i, r, seen)->0).2 <= s.len(),
{
    lemma_string_bounds(s, i);
    let j = (parse_string(s, i)->0).1;
    lemma_skip_ws_bounds(s, j);
    let k = skip_ws(s, j);
    let m = skip_ws(s, k + 1);
    lemma_skip_ws_bounds(s, k + 1);
    if parse_number(s, m) is Some {
        lemma_number_bounds(s, m);
    }
    if parse_button_list(s, m) is Some {
        lemma_button_list_bounds(s, m);
    }
    if skip_value(s, m, (s.len() - m + 1) as nat) is Some {
        lemma_skip_value_bounds(s, m, (s.len() - m + 1) as nat);
    }
}

/// The members of the settings object from the first key on, ending at
/// the closing brace.
pub open spec fn parse_doc_members(
    s: Seq<char>,
    i: int,
    r: RawSettingsModel,
    seen: DocSeen,
) -> Option<(RawSettingsModel, int)>
    decreases s.len() - i,
    via parse_doc_members_decreases
{
    match parse_doc_pair(s, i, r, seen) {
        None => None,
        Some((r2, seen2, j)) => {
            let k = skip_ws(s, j);
            if k < s.len() && s[k] == ',' {
                parse_doc_members(s, skip_ws(s, k + 1), r2, seen2)
            } else if k < s.len() && s[k] == '}' {
                Some((r2, k + 1))
            } else {
                None
            }
        },
    }
}

#[via_fn]
proof fn parse_doc_members_decreases(s: Seq<char>, i: int, r: RawSettingsModel, seen: DocSeen) {
    if i < 0 {
        assert(parse_string(s, i) is None);
    } else {
        match parse_doc_pair(s, i, r, seen) {
            Some((r2, seen2, j)) => {
                lemma_doc_pair_bounds(s, i, r, seen);
                lemma_skip_ws_bounds(s, j);
                let k = skip_ws(s, j);
                if k < s.len() && s[k] == ',' {
                    lemma_skip_ws_bounds(s, k + 1);
                }
            },
            None => {},
        }
    }
}

/// Parsed settings members always make progress and stay inside the text.
pub proof fn lemma_doc_members_bounds(s: Seq<char>, i: int, r: RawSettingsModel, seen: DocSeen)
    requires
        0 <= i,
        parse_doc_members(s, i, r, seen) is Some,
    ensures
        i < (parse_doc_members(s, i, r, seen)->0).1 <= s.len(),
    decreases s.len() - i,
{
    match parse_doc_pair(s, i, r, seen) {
        Some((r2, seen2, j)) => {
            lemma_doc_pair_bounds(s, i, r, seen);
            lemma_skip_ws_bounds(s, j);
            let k = skip_ws(s, j);
            if k < s.len() && s[k] == ',' {
                lemma_skip_ws_bounds(s, k + 1);
                lemma_doc_members_bounds(s, skip_ws(s, k + 1), r2, seen2);
            }
        },
        None => {},
    }
}

/// A whole settings document: optional whitespace, one object, optional
/// whitespace, nothing else.
pub open spec fn parse_doc(s: Seq<char>) -> Option<RawSettingsModel> {
    let i = skip_ws(s, 0);
    if !(i < s.len() && s[i] == '{') {
        None
    } else {
        let j = skip_ws(s, i + 1);
        if j < s.len() && s[j] == '}' {
            if skip_ws(s, j + 1) == s.len() {
                Some(empty_raw_model())
            } else {
                None
            }
        } else {
            match parse_doc_members(s, j, empty_raw_model(), no_keys_seen()) {
                Some((r, k)) => if skip_ws(s, k) == s.len() {
                    Some(r)
                } else {
                    None
                },
                None => None,
            }
        }
    }
}

/// A whole button-list text, as the CLI override carries it: optional
/// whitespace, one array, optional whitespace, nothing else.
pub open spec fn parse_buttons_text(s: Seq<char>) -> Option<Seq<ButtonModel>> {
    let i = skip_ws(s, 0);
    match parse_button_list(s, i) {
        Some((bs, j)) => if skip_ws(s, j) == s.len() {
            Some(bs)
        } else {
            None
        },
        None => None,
    }
}

} // verus!
