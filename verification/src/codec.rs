//! The JSON wire codec.
//!
//! A notification travels as the UTF-8 JSON object
//! `{"message":{"text":"…","time":<u128>},"key":"<hex>"}`. A payload may hold
//! one or more such objects concatenated, with optional whitespace between
//! them. The decoder yields one result per object, in order; a malformed
//! object yields an error and decoding continues at the next balanced object.
//!
//! The accepted grammar is spelled out by the spec functions in this module:
//! standard JSON whitespace, both member orders, the short escapes
//! `\" \\ \/ \b \f \n \r \t`, and `\uXXXX` escapes for scalar values below
//! the surrogate range. Member names other than the two expected ones, and
//! duplicate members, are rejected.

use crate::error::Error;
use crate::notifications::{Message, MessageView, Notification, NotificationView};
use crate::text::{
    dec_chars, hex_digit_char, hex_digit_char_exec, hex_val, hex_val_exec, is_hex_digit,
    is_hex_digit_exec, append_str, push_char, u128_to_dec_string,
};
use vstd::prelude::*;
use vstd::string::StrSliceExecFns;
use vstd::utf8::char_u32_cast;

verus! {

/// JSON whitespace.
pub open spec fn is_json_ws(c: char) -> bool {
    c == ' ' || c == '\t' || c == '\n' || c == '\r'
}

/// ASCII decimal digit.
pub open spec fn is_dec_digit(c: char) -> bool {
    0x30 <= c as u32 && c as u32 <= 0x39
}

/// First position at or after `i` that does not hold JSON whitespace.
pub open spec fn skip_ws(s: Seq<char>, i: int) -> int
    decreases s.len() - i
        when 0 <= i <= s.len()
{
    if i < s.len() && is_json_ws(s[i]) {
        skip_ws(s, i + 1)
    } else {
        i
    }
}

proof fn lemma_skip_ws_bounds(s: Seq<char>, i: int)
    requires
        0 <= i <= s.len(),
    ensures
        i <= skip_ws(s, i) <= s.len(),
    decreases s.len() - i,
{
    if i < s.len() && is_json_ws(s[i]) {
        lemma_skip_ws_bounds(s, i + 1);
    }
}

/// JSON escape of one character, as the encoder writes it.
pub open spec fn escape_char(c: char) -> Seq<char> {
    if c == '"' {
        seq!['\\', '"']
    } else if c == '\\' {
        seq!['\\', '\\']
    } else if c == '\u{8}' {
        seq!['\\', 'b']
    } else if c == '\t' {
        seq!['\\', 't']
    } else if c == '\n' {
        seq!['\\', 'n']
    } else if c == '\u{c}' {
        seq!['\\', 'f']
    } else if c == '\r' {
        seq!['\\', 'r']
    } else if (c as u32) < 0x20 {
        seq![
            '\\',
            'u',
            '0',
            '0',
            hex_digit_char((c as u32 / 16) as u8),
            hex_digit_char((c as u32 % 16) as u8),
        ]
    } else {
        seq![c]
    }
}

/// JSON escape of a whole string body.
pub open spec fn escape_string(t: Seq<char>) -> Seq<char>
    decreases t.len(),
{
    if t.len() == 0 {
        Seq::<char>::empty()
    } else {
        escape_char(t[0]) + escape_string(t.drop_first())
    }
}

/// The JSON encoding of a notification, exactly as the encoder emits it.
pub open spec fn encode_json(n: NotificationView) -> Seq<char> {
    "{\"message\":{\"text\":\""@ + escape_string(n.message.text) + "\",\"time\":"@ + dec_chars(
        n.message.time,
    ) + "},\"key\":\""@ + escape_string(n.key) + "\"}"@
}

/// Body of a JSON string, read from `i` (just after the opening quote) until
/// the closing quote; `acc` holds what was read so far. Unescaped control
/// characters, bad escapes and `\u` values at or above the surrogate range
/// are rejected.
pub open spec fn parse_string_body(s: Seq<char>, i: int, acc: Seq<char>) -> Option<
    (Seq<char>, int),
>
    decreases s.len() - i
        when 0 <= i <= s.len()
{
    if i >= s.len() {
        None
    } else if s[i] == '"' {
        Some((acc, i + 1))
    } else if s[i] == '\\' {
        if i + 1 >= s.len() {
            None
        } else {
            let e = s[i + 1];
            if e == '"' {
                parse_string_body(s, i + 2, acc.push('"'))
            } else if e == '\\' {
                parse_string_body(s, i + 2, acc.push('\\'))
            } else if e == '/' {
                parse_string_body(s, i + 2, acc.push('/'))
            } else if e == 'b' {
                parse_string_body(s, i + 2, acc.push('\u{8}'))
            } else if e == 'f' {
                parse_string_body(s, i + 2, acc.push('\u{c}'))
            } else if e == 'n' {
                parse_string_body(s, i + 2, acc.push('\n'))
            } else if e == 'r' {
                parse_string_body(s, i + 2, acc.push('\r'))
            } else if e == 't' {
                parse_string_body(s, i + 2, acc.push('\t'))
            } else if e == 'u' {
                if i + 5 >= s.len() {
                    None
                } else if is_hex_digit(s[i + 2]) && is_hex_digit(s[i + 3]) && is_hex_digit(
                    s[i + 4],
                ) && is_hex_digit(s[i + 5]) {
                    let v = (hex_val(s[i + 2]) as u32 * 4096 + hex_val(s[i + 3]) as u32 * 256
                        + hex_val(s[i + 4]) as u32 * 16 + hex_val(s[i + 5]) as u32) as u32;
                    if v < 0xd800 {
                        parse_string_body(s, i + 6, acc.push(v as char))
                    } else {
                        None
                    }
                } else {
                    None
                }
            } else {
                None
            }
        }
    } else if (s[i] as u32) < 0x20 {
        None
    } else {
        parse_string_body(s, i + 1, acc.push(s[i]))
    }
}

proof fn lemma_parse_string_advances(s: Seq<char>, i: int, acc: Seq<char>)
    requires
        0 <= i <= s.len(),
    ensures
        match parse_string_body(s, i, acc) {
            Some(r) => i < r.1 <= s.len(),
            None => true,
        },
    decreases s.len() - i,
{
    if i < s.len() && s[i] != '"' {
        if s[i] == '\\' {
            if i + 1 < s.len() {
                let e = s[i + 1];
                if e == 'u' {
                    if i + 5 < s.len() {
                        let v = (hex_val(s[i + 2]) as u32 * 4096 + hex_val(s[i + 3]) as u32 * 256
                            + hex_val(s[i + 4]) as u32 * 16 + hex_val(s[i + 5]) as u32) as u32;
                        lemma_parse_string_advances(s, i + 6, acc.push(v as char));
                    }
                } else {
                    lemma_parse_string_advances(s, i + 2, acc.push('"'));
                    lemma_parse_string_advances(s, i + 2, acc.push('\\'));
                    lemma_parse_string_advances(s, i + 2, acc.push('/'));
                    lemma_parse_string_advances(s, i + 2, acc.push('\u{8}'));
                    lemma_parse_string_advances(s, i + 2, acc.push('\u{c}'));
                    lemma_parse_string_advances(s, i + 2, acc.push('\n'));
                    lemma_parse_string_advances(s, i + 2, acc.push('\r'));
                    lemma_parse_string_advances(s, i + 2, acc.push('\t'));
                }
            }
        } else if (s[i] as u32) >= 0x20 {
            lemma_parse_string_advances(s, i + 1, acc.push(s[i]));
        }
    }
}

/// Run of decimal digits starting at `i`, accumulated onto `acc`; stops at
/// the first non-digit. Rejected when the value would not fit in a `u128`.
pub open spec fn parse_digits(s: Seq<char>, i: int, acc: u128) -> Option<(u128, int)>
    decreases s.len() - i
        when 0 <= i <= s.len()
{
    if i < s.len() && is_dec_digit(s[i]) {
        let d = (s[i] as u32 - 0x30) as int;
        if acc as int * 10 + d <= u128::MAX as int {
            parse_digits(s, i + 1, (acc as int * 10 + d) as u128)
        } else {
            None
        }
    } else {
        Some((acc, i))
    }
}

proof fn lemma_parse_digits_advances(s: Seq<char>, i: int, acc: u128)
    requires
        0 <= i <= s.len(),
    ensures
        match parse_digits(s, i, acc) {
            Some(r) => i <= r.1 <= s.len(),
            None => true,
        },
    decreases s.len() - i,
{
    if i < s.len() && is_dec_digit(s[i]) {
        let d = (s[i] as u32 - 0x30) as int;
        if acc as int * 10 + d <= u128::MAX as int {
            lemma_parse_digits_advances(s, i + 1, (acc as int * 10 + d) as u128);
        }
    }
}

/// A JSON non-negative integer: one or more decimal digits, with no leading
/// zero except for the number zero itself.
pub open spec fn parse_number(s: Seq<char>, i: int) -> Option<(u128, int)> {
    if 0 <= i < s.len() && is_dec_digit(s[i]) {
        if s[i] == '0' {
            if i + 1 < s.len() && is_dec_digit(s[i + 1]) {
                None
            } else {
                Some((0, i + 1))
            }
        } else {
            parse_digits(s, i, 0)
        }
    } else {
        None
    }
}

proof fn lemma_parse_number_advances(s: Seq<char>, i: int)
    requires
        0 <= i <= s.len(),
    ensures
        match parse_number(s, i) {
            Some(r) => i < r.1 <= s.len(),
            None => true,
        },
{
    if 0 <= i < s.len() && is_dec_digit(s[i]) && s[i] != '0' {
        let d = (s[i] as u32 - 0x30) as int;
        assert(parse_digits(s, i, 0) == parse_digits(s, i + 1, d as u128));
        lemma_parse_digits_advances(s, i + 1, d as u128);
    }
}

/// Members of the inner message object, read from `i` (just after `{` or a
/// separating comma). `text` and `time` hold members already seen; each may
/// appear exactly once, in either order, and nothing else is accepted.
pub open spec fn parse_message_members(
    s: Seq<char>,
    i: int,
    text: Option<Seq<char>>,
    time: Option<u128>,
) -> Option<(MessageView, int)>
    decreases s.len() - i
        when 0 <= i <= s.len()
        via parse_message_members_decreases
{
    let k = skip_ws(s, i);
    if k >= s.len() || s[k] != '"' {
        None
    } else {
        match parse_string_body(s, k + 1, Seq::<char>::empty()) {
            None => None,
            Some((name, p)) => {
                let q = skip_ws(s, p);
                if q >= s.len() || s[q] != ':' {
                    None
                } else {
                    let r = skip_ws(s, q + 1);
                    let stepped: Option<(Option<Seq<char>>, Option<u128>, int)> = if name
                        == "text"@ && text is None {
                        if r < s.len() && s[r] == '"' {
                            match parse_string_body(s, r + 1, Seq::<char>::empty()) {
                                Some((t, u)) => Some((Some(t), time, u)),
                                None => None,
                            }
                        } else {
                            None
                        }
                    } else if name == "time"@ && time is None {
                        match parse_number(s, r) {
                            Some((n, u)) => Some((text, Some(n), u)),
                            None => None,
                        }
                    } else {
                        None
                    };
                    match stepped {
                        None => None,
                        Some((text2, time2, u)) => {
                            let w = skip_ws(s, u);
                            if w >= s.len() {
                                None
                            } else if s[w] == ',' {
                                parse_message_members(s, w + 1, text2, time2)
                            } else if s[w] == '}' {
                                match (text2, time2) {
                                    (Some(t), Some(n)) => Some(
                                        (MessageView { text: t, time: n }, w + 1),
                                    ),
                                    _ => None,
                                }
                            } else {
                                None
                            }
                        },
                    }
                }
            },
        }
    }
}

#[via_fn]
proof fn parse_message_members_decreases(
    s: Seq<char>,
    i: int,
    text: Option<Seq<char>>,
    time: Option<u128>,
) {
    lemma_skip_ws_bounds(s, i);
    let k = skip_ws(s, i);
    if k < s.len() && s[k] == '"' {
        lemma_parse_string_advances(s, k + 1, Seq::<char>::empty());
        match parse_string_body(s, k + 1, Seq::<char>::empty()) {
            None => {},
            Some((name, p)) => {
                lemma_skip_ws_bounds(s, p);
                let q = skip_ws(s, p);
                if q < s.len() && s[q] == ':' {
                    lemma_skip_ws_bounds(s, q + 1);
                    let r = skip_ws(s, q + 1);
                    if r < s.len() && s[r] == '"' {
                        lemma_parse_string_advances(s, r + 1, Seq::<char>::empty());
                        match parse_string_body(s, r + 1, Seq::<char>::empty()) {
                            Some((t, u)) => lemma_skip_ws_bounds(s, u),
                            None => {},
                        }
                    }
                    lemma_parse_number_advances(s, r);
                    match parse_number(s, r) {
                        Some((n, u)) => lemma_skip_ws_bounds(s, u),
                        None => {},
                    }
                }
            },
        }
    }
}

proof fn lemma_parse_message_members_advances(
    s: Seq<char>,
    i: int,
    text: Option<Seq<char>>,
    time: Option<u128>,
)
    requires
        0 <= i <= s.len(),
    ensures
        match parse_message_members(s, i, text, time) {
            Some(r) => i < r.1 <= s.len(),
            None => true,
        },
    decreases s.len() - i,
{
    lemma_skip_ws_bounds(s, i);
    let k = skip_ws(s, i);
    if k < s.len() && s[k] == '"' {
        lemma_parse_string_advances(s, k + 1, Seq::<char>::empty());
        match parse_string_body(s, k + 1, Seq::<char>::empty()) {
            None => {},
            Some((name, p)) => {
                lemma_skip_ws_bounds(s, p);
                let q = skip_ws(s, p);
                if q < s.len() && s[q] == ':' {
                    lemma_skip_ws_bounds(s, q + 1);
                    let r = skip_ws(s, q + 1);
                    let stepped: Option<(Option<Seq<char>>, Option<u128>, int)> = if name
                        == "text"@ && text is None {
                        if r < s.len() && s[r] == '"' {
                            match parse_string_body(s, r + 1, Seq::<char>::empty()) {
                                Some((t, u)) => Some((Some(t), time, u)),
                                None => None,
                            }
                        } else {
                            None
                        }
                    } else if name == "time"@ && time is None {
                        match parse_number(s, r) {
                            Some((n, u)) => Some((text, Some(n), u)),
                            None => None,
                        }
                    } else {
                        None
                    };
                    if r < s.len() && s[r] == '"' {
                        lemma_parse_string_advances(s, r + 1, Seq::<char>::empty());
                    }
                    lemma_parse_number_advances(s, r);
                    match stepped {
                        None => {},
                        Some((text2, time2, u)) => {
                            lemma_skip_ws_bounds(s, u);
                            let w = skip_ws(s, u);
                            if w < s.len() && s[w] == ',' {
                                lemma_parse_message_members_advances(s, w + 1, text2, time2);
                            }
                        },
                    }
                }
            },
        }
    }
}

/// Members of the outer notification object, read from `i` (just after `{`
/// or a separating comma). The `message` member must hold the inner message
/// object; the `key` member must hold a string.
pub open spec fn parse_notification_members(
    s: Seq<char>,
    i: int,
    message: Option<MessageView>,
    key: Option<Seq<char>>,
) -> Option<(NotificationView, int)>
    decreases s.len() - i
        when 0 <= i <= s.len()
        via parse_notification_members_decreases
{
    let k = skip_ws(s, i);
    if k >= s.len() || s[k] != '"' {
        None
    } else {
        match parse_string_body(s, k + 1, Seq::<char>::empty()) {
            None => None,
            Some((name, p)) => {
                let q = skip_ws(s, p);
                if q >= s.len() || s[q] != ':' {
                    None
                } else {
                    let r = skip_ws(s, q + 1);
                    let stepped: Option<(Option<MessageView>, Option<Seq<char>>, int)> = if name
                        == "message"@ && message is None {
                        if r < s.len() && s[r] == '{' {
                            match parse_message_members(s, r + 1, None, None) {
                                Some((m, u)) => Some((Some(m), key, u)),
                                None => None,
                            }
                        } else {
                            None
                        }
                    } else if name == "key"@ && key is None {
                        if r < s.len() && s[r] == '"' {
                            match parse_string_body(s, r + 1, Seq::<char>::empty()) {
                                Some((t, u)) => Some((message, Some(t), u)),
                                None => None,
                            }
                        } else {
                            None
                        }
                    } else {
                        None
                    };
                    match stepped {
                        None => None,
                        Some((message2, key2, u)) => {
                            let w = skip_ws(s, u);
                            if w >= s.len() {
                                None
                            } else if s[w] == ',' {
                                parse_notification_members(s, w + 1, message2, key2)
                            } else if s[w] == '}' {
                                match (message2, key2) {
                                    (Some(m), Some(h)) => Some(
                                        (NotificationView { message: m, key: h }, w + 1),
                                    ),
                                    _ => None,
                                }
                            } else {
                                None
                            }
                        },
                    }
                }
            },
        }
    }
}

#[via_fn]
proof fn parse_notification_members_decreases(
    s: Seq<char>,
    i: int,
    message: Option<MessageView>,
    key: Option<Seq<char>>,
) {
    lemma_skip_ws_bounds(s, i);
    let k = skip_ws(s, i);
    if k < s.len() && s[k] == '"' {
        lemma_parse_string_advances(s, k + 1, Seq::<char>::empty());
        match parse_string_body(s, k + 1, Seq::<char>::empty()) {
            None => {},
            Some((name, p)) => {
                lemma_skip_ws_bounds(s, p);
                let q = skip_ws(s, p);
                if q < s.len() && s[q] == ':' {
                    lemma_skip_ws_bounds(s, q + 1);
                    let r = skip_ws(s, q + 1);
                    if r < s.len() && s[r] == '{' {
                        lemma_parse_message_members_advances(s, r + 1, None, None);
                        match parse_message_members(s, r + 1, None, None) {
                            Some((m, u)) => lemma_skip_ws_bounds(s, u),
                            None => {},
                        }
                    }
                    if r < s.len() && s[r] == '"' {
                        lemma_parse_string_advances(s, r + 1, Seq::<char>::empty());
                        match parse_string_body(s, r + 1, Seq::<char>::empty()) {
                            Some((t, u)) => lemma_skip_ws_bounds(s, u),
                            None => {},
                        }
                    }
                }
            },
        }
    }
}

proof fn lemma_parse_notification_members_advances(
    s: Seq<char>,
    i: int,
    message: Option<MessageView>,
    key: Option<Seq<char>>,
)
    requires
        0 <= i <= s.len(),
    ensures
        match parse_notification_members(s, i, message, key) {
            Some(r) => i < r.1 <= s.len(),
            None => true,
        },
    decreases s.len() - i,
{
    lemma_skip_ws_bounds(s, i);
    let k = skip_ws(s, i);
    if k < s.len() && s[k] == '"' {
        lemma_parse_string_advances(s, k + 1, Seq::<char>::empty());
        match parse_string_body(s, k + 1, Seq::<char>::empty()) {
            None => {},
            Some((name, p)) => {
                lemma_skip_ws_bounds(s, p);
                let q = skip_ws(s, p);
                if q < s.len() && s[q] == ':' {
                    lemma_skip_ws_bounds(s, q + 1);
                    let r = skip_ws(s, q + 1);
                    let stepped: Option<(Option<MessageView>, Option<Seq<char>>, int)> = if name
                        == "message"@ && message is None {
                        if r < s.len() && s[r] == '{' {
                            match parse_message_members(s, r + 1, None, None) {
                                Some((m, u)) => Some((Some(m), key, u)),
                                None => None,
                            }
                        } else {
                            None
                        }
                    } else if name == "key"@ && key is None {
                        if r < s.len() && s[r] == '"' {
                            match parse_string_body(s, r + 1, Seq::<char>::empty()) {
                                Some((t, u)) => Some((message, Some(t), u)),
                                None => None,
                            }
                        } else {
                            None
                        }
                    } else {
                        None
                    };
                    if r < s.len() && s[r] == '{' {
                        lemma_parse_message_members_advances(s, r + 1, None, None);
                    }
                    if r < s.len() && s[r] == '"' {
                        lemma_parse_string_advances(s, r + 1, Seq::<char>::empty());
                    }
                    match stepped {
                        None => {},
                        Some((message2, key2, u)) => {
                            lemma_skip_ws_bounds(s, u);
                            let w = skip_ws(s, u);
                            if w < s.len() && s[w] == ',' {
                                lemma_parse_notification_members_advances(s, w + 1, message2, key2);
                            }
                        },
                    }
                }
            },
        }
    }
}

/// One notification object starting exactly at `i`.
pub open spec fn parse_notification(s: Seq<char>, i: int) -> Option<(NotificationView, int)> {
    if 0 <= i < s.len() && s[i] == '{' {
        parse_notification_members(s, i + 1, None, None)
    } else {
        None
    }
}

/// Position just past the brace matching an opening `{`; `i` points inside
/// the braces, `depth` counts braces already open, and `in_string`/`escaped`
/// track JSON string state so that braces inside strings do not count.
pub open spec fn scan_object(
    s: Seq<char>,
    i: int,
    depth: int,
    in_string: bool,
    escaped: bool,
) -> Option<int>
    decreases s.len() - i
        when 0 <= i <= s.len()
{
    if i >= s.len() {
        None
    } else {
        let c = s[i];
        if in_string {
            if escaped {
                scan_object(s, i + 1, depth, true, false)
            } else if c == '\\' {
                scan_object(s, i + 1, depth, true, true)
            } else if c == '"' {
                scan_object(s, i + 1, depth, false, false)
            } else {
                scan_object(s, i + 1, depth, true, false)
            }
        } else if c == '"' {
            scan_object(s, i + 1, depth, true, false)
        } else if c == '{' {
            scan_object(s, i + 1, depth + 1, false, false)
        } else if c == '}' {
            if depth <= 1 {
                Some(i + 1)
            } else {
                scan_object(s, i + 1, depth - 1, false, false)
            }
        } else {
            scan_object(s, i + 1, depth, false, false)
        }
    }
}

proof fn lemma_scan_object_advances(s: Seq<char>, i: int, depth: int, in_string: bool, escaped: bool)
    requires
        0 <= i <= s.len(),
    ensures
        match scan_object(s, i, depth, in_string, escaped) {
            Some(j) => i < j <= s.len(),
            None => true,
        },
    decreases s.len() - i,
{
    if i < s.len() {
        let c = s[i];
        if in_string {
            if escaped {
                lemma_scan_object_advances(s, i + 1, depth, true, false);
            } else if c == '\\' {
                lemma_scan_object_advances(s, i + 1, depth, true, true);
            } else if c == '"' {
                lemma_scan_object_advances(s, i + 1, depth, false, false);
            } else {
                lemma_scan_object_advances(s, i + 1, depth, true, false);
            }
        } else if c == '"' {
            lemma_scan_object_advances(s, i + 1, depth, true, false);
        } else if c == '{' {
            lemma_scan_object_advances(s, i + 1, depth + 1, false, false);
        } else if c == '}' {
            if depth > 1 {
                lemma_scan_object_advances(s, i + 1, depth - 1, false, false);
            }
        } else {
            lemma_scan_object_advances(s, i + 1, depth, false, false);
        }
    }
}

/// Result of decoding a whole payload: one entry per JSON value found, in
/// order. `Some` carries a decoded notification; `None` stands for a
/// malformed value. After a malformed but brace-balanced object decoding
/// resumes at the next value; text that is not an object at all (or an
/// unbalanced object) ends decoding with a final error entry.
pub open spec fn decode_all(s: Seq<char>, i: int) -> Seq<Option<NotificationView>>
    decreases s.len() - i
        when 0 <= i <= s.len()
        via decode_all_decreases
{
    let j = skip_ws(s, i);
    if j >= s.len() {
        Seq::<Option<NotificationView>>::empty()
    } else if s[j] != '{' {
        seq![Option::<NotificationView>::None]
    } else {
        match parse_notification(s, j) {
            Some((n, k)) => seq![Some(n)] + decode_all(s, k),
            None => match scan_object(s, j + 1, 1, false, false) {
                Some(k) => seq![Option::<NotificationView>::None] + decode_all(s, k),
                None => seq![Option::<NotificationView>::None],
            },
        }
    }
}

#[via_fn]
proof fn decode_all_decreases(s: Seq<char>, i: int) {
    lemma_skip_ws_bounds(s, i);
    let j = skip_ws(s, i);
    if j < s.len() && s[j] == '{' {
        lemma_parse_notification_members_advances(s, j + 1, None, None);
        lemma_scan_object_advances(s, j + 1, 1, false, false);
    }
}

/// Decoding of a payload that must hold exactly one notification object,
/// possibly surrounded by whitespace.
pub open spec fn decode_single(s: Seq<char>) -> Option<NotificationView> {
    let j = skip_ws(s, 0);
    match parse_notification(s, j) {
        Some((n, k)) => {
            if skip_ws(s, k) == s.len() {
                Some(n)
            } else {
                None
            }
        },
        None => None,
    }
}

/// View of decoder results: `Ok` becomes the decoded view, `Err` a `None`.
pub open spec fn results_view(rs: Seq<Result<Notification, Error>>) -> Seq<
    Option<NotificationView>,
> {
    rs.map_values(
        |r: Result<Notification, Error>|
            match r {
                Ok(n) => Some(n@),
                Err(_) => None::<NotificationView>,
            },
    )
}

/// Relies on `char::from_u32`: the character with scalar value `v`. Every
/// value below the surrogate range is a valid scalar, so the conversion
/// returns a character there.
#[verifier::external_body]
fn char_from_u32(v: u32) -> (r: char)
    requires
        v < 0xd800,
    ensures
        r as u32 == v,
{
    char::from_u32(v).unwrap()
}

spec fn opt_string_view(t: &Option<String>) -> Option<Seq<char>> {
    match t {
        Some(s) => Some(s@),
        None => None,
    }
}

spec fn opt_message_view(t: &Option<Message>) -> Option<MessageView> {
    match t {
        Some(m) => Some(m@),
        None => None,
    }
}

/// The characters of a string slice as a vector.
fn str_to_chars(s: &str) -> (r: Vec<char>)
    ensures
        r@ == s@,
{
    let len = s.unicode_len();
    let mut v: Vec<char> = Vec::new();
    let mut i: usize = 0;
    while i < len
        invariant
            i <= len,
            len == s@.len(),
            v@ == s@.take(i as int),
        decreases len - i,
    {
        let c = s.get_char(i);
        v.push(c);
        assert(v@ =~= s@.take(i as int + 1));
        i = i + 1;
    }
    assert(s@.take(len as int) =~= s@);
    v
}

/// Whether a string equals the given literal.
fn str_is(a: &String, lit: &str) -> (r: bool)
    ensures
        r == (a@ == lit@),
{
    let owned: String = lit.to_owned();
    a.eq(&owned)
}

fn is_json_ws_exec(c: char) -> (r: bool)
    ensures
        r == is_json_ws(c),
{
    c == ' ' || c == '\t' || c == '\n' || c == '\r'
}

fn is_dec_digit_exec(c: char) -> (r: bool)
    ensures
        r == is_dec_digit(c),
{
    let v = c as u32;
    0x30 <= v && v <= 0x39
}

fn skip_ws_exec(v: &Vec<char>, i: usize) -> (r: usize)
    requires
        i <= v@.len(),
    ensures
        r as int == skip_ws(v@, i as int),
        i <= r <= v@.len(),
{
    let mut j = i;
    while j < v.len() && is_json_ws_exec(v[j])
        invariant
            i <= j <= v@.len(),
            skip_ws(v@, i as int) == skip_ws(v@, j as int),
        decreases v@.len() - j,
    {
        j = j + 1;
    }
    j
}

fn parse_string_body_exec(v: &Vec<char>, start: usize) -> (r: Option<(String, usize)>)
    requires
        start <= v@.len(),
    ensures
        match r {
            Some(p) => parse_string_body(v@, start as int, Seq::<char>::empty()) == Some(
                (p.0@, p.1 as int),
            ) && start < p.1 <= v@.len(),
            None => parse_string_body(v@, start as int, Seq::<char>::empty()) is None,
        },
{
    let mut buf = String::new();
    let mut i = start;
    loop
        invariant
            start <= i <= v@.len(),
            parse_string_body(v@, start as int, Seq::<char>::empty()) == parse_string_body(
                v@,
                i as int,
                buf@,
            ),
        decreases v@.len() - i,
    {
        if i >= v.len() {
            return None;
        }
        let c = v[i];
        if c == '"' {
            return Some((buf, i + 1));
        } else if c == '\\' {
            if i + 1 >= v.len() {
                return None;
            }
            let e = v[i + 1];
            if e == '"' {
                push_char(&mut buf, '"');
                i = i + 2;
            } else if e == '\\' {
                push_char(&mut buf, '\\');
                i = i + 2;
            } else if e == '/' {
                push_char(&mut buf, '/');
                i = i + 2;
            } else if e == 'b' {
                push_char(&mut buf, '\u{8}');
                i = i + 2;
            } else if e == 'f' {
                push_char(&mut buf, '\u{c}');
                i = i + 2;
            } else if e == 'n' {
                push_char(&mut buf, '\n');
                i = i + 2;
            } else if e == 'r' {
                push_char(&mut buf, '\r');
                i = i + 2;
            } else if e == 't' {
                push_char(&mut buf, '\t');
                i = i + 2;
            } else if e == 'u' {
                if v.len() - i <= 5 {
                    return None;
                }
                let h1 = v[i + 2];
                let h2 = v[i + 3];
                let h3 = v[i + 4];
                let h4 = v[i + 5];
                if is_hex_digit_exec(h1) && is_hex_digit_exec(h2) && is_hex_digit_exec(h3)
                    && is_hex_digit_exec(h4) {
                    let val: u32 = (hex_val_exec(h1) as u32) * 4096 + (hex_val_exec(h2) as u32)
                        * 256 + (hex_val_exec(h3) as u32) * 16 + (hex_val_exec(h4) as u32);
                    if val < 0xd800 {
                        let ch = char_from_u32(val);
                        proof {
                            char_u32_cast(ch, val);
                        }
                        push_char(&mut buf, ch);
                        i = i + 6;
                    } else {
                        return None;
                    }
                } else {
                    return None;
                }
            } else {
                return None;
            }
        } else if (c as u32) < 0x20 {
            return None;
        } else {
            push_char(&mut buf, c);
            i = i + 1;
        }
    }
}

fn parse_number_exec(v: &Vec<char>, start: usize) -> (r: Option<(u128, usize)>)
    requires
        start <= v@.len(),
    ensures
        match r {
            Some(p) => parse_number(v@, start as int) == Some((p.0, p.1 as int)) && start < p.1
                <= v@.len(),
            None => parse_number(v@, start as int) is None,
        },
{
    if start >= v.len() {
        return None;
    }
    let c0 = v[start];
    if !is_dec_digit_exec(c0) {
        return None;
    }
    if c0 == '0' {
        if start + 1 < v.len() && is_dec_digit_exec(v[start + 1]) {
            return None;
        }
        return Some((0, start + 1));
    }
    let d0 = (c0 as u32 - 0x30) as u128;
    let mut acc: u128 = d0;
    let mut i = start + 1;
    assert(parse_digits(v@, start as int, 0) == parse_digits(v@, start as int + 1, d0));
    loop
        invariant
            start < i <= v@.len(),
            start < v@.len(),
            is_dec_digit(v@[start as int]),
            v@[start as int] != '0',
            parse_digits(v@, start as int, 0) == parse_digits(v@, i as int, acc),
        decreases v@.len() - i,
    {
        if i >= v.len() {
            return Some((acc, i));
        }
        let c = v[i];
        if !is_dec_digit_exec(c) {
            return Some((acc, i));
        }
        let d = (c as u32 - 0x30) as u128;
        match acc.checked_mul(10) {
            None => {
                return None;
            },
            Some(m) => {
                match m.checked_add(d) {
                    None => {
                        return None;
                    },
                    Some(nv) => {
                        acc = nv;
                        i = i + 1;
                    },
                }
            },
        }
    }
}

fn parse_message_members_exec(v: &Vec<char>, start: usize) -> (r: Option<(Message, usize)>)
    requires
        start <= v@.len(),
    ensures
        match r {
            Some(p) => parse_message_members(v@, start as int, None, None) == Some(
                (p.0@, p.1 as int),
            ) && start < p.1 <= v@.len(),
            None => parse_message_members(v@, start as int, None, None) is None,
        },
{
    let mut i = start;
    let mut text: Option<String> = None;
    let mut time: Option<u128> = None;
    loop
        invariant
            start <= i <= v@.len(),
            parse_message_members(v@, start as int, None, None) == parse_message_members(
                v@,
                i as int,
                opt_string_view(&text),
                time,
            ),
        decreases v@.len() - i,
    {
        let k = skip_ws_exec(v, i);
        if k >= v.len() {
            return None;
        }
        if v[k] != '"' {
            return None;
        }
        let name_res = parse_string_body_exec(v, k + 1);
        if name_res.is_none() {
            return None;
        }
        let (name, p) = name_res.unwrap();
        let q = skip_ws_exec(v, p);
        if q >= v.len() {
            return None;
        }
        if v[q] != ':' {
            return None;
        }
        let r2 = skip_ws_exec(v, q + 1);
        let u: usize;
        if str_is(&name, "text") && text.is_none() {
            if r2 >= v.len() {
                return None;
            }
            if v[r2] != '"' {
                return None;
            }
            match parse_string_body_exec(v, r2 + 1) {
                None => {
                    return None;
                },
                Some((t, u2)) => {
                    text = Some(t);
                    u = u2;
                },
            }
        } else if str_is(&name, "time") && time.is_none() {
            match parse_number_exec(v, r2) {
                None => {
                    return None;
                },
                Some((n, u2)) => {
                    time = Some(n);
                    u = u2;
                },
            }
        } else {
            return None;
        }
        let w = skip_ws_exec(v, u);
        if w >= v.len() {
            return None;
        }
        if v[w] == ',' {
            i = w + 1;
        } else if v[w] == '}' {
            match (text, time) {
                (Some(t), Some(n)) => {
                    return Some((Message::from_parts(t, n), w + 1));
                },
                _ => {
                    return None;
                },
            }
        } else {
            return None;
        }
    }
}

fn parse_notification_members_exec(v: &Vec<char>, start: usize) -> (r: Option<
    (Notification, usize),
>)
    requires
        start <= v@.len(),
    ensures
        match r {
            Some(p) => parse_notification_members(v@, start as int, None, None) == Some(
                (p.0@, p.1 as int),
            ) && start < p.1 <= v@.len(),
            None => parse_notification_members(v@, start as int, None, None) is None,
        },
{
    let mut i = start;
    let mut message: Option<Message> = None;
    let mut key: Option<String> = None;
    loop
        invariant
            start <= i <= v@.len(),
            parse_notification_members(v@, start as int, None, None) == parse_notification_members(
                v@,
                i as int,
                opt_message_view(&message),
                opt_string_view(&key),
            ),
        decreases v@.len() - i,
    {
        let k = skip_ws_exec(v, i);
        if k >= v.len() {
            return None;
        }
        if v[k] != '"' {
            return None;
        }
        let name_res = parse_string_body_exec(v, k + 1);
        if name_res.is_none() {
            return None;
        }
        let (name, p) = name_res.unwrap();
        let q = skip_ws_exec(v, p);
        if q >= v.len() {
            return None;
        }
        if v[q] != ':' {
            return None;
        }
        let r2 = skip_ws_exec(v, q + 1);
        let u: usize;
        if str_is(&name, "message") && message.is_none() {
            if r2 >= v.len() {
                return None;
            }
            if v[r2] != '{' {
                return None;
            }
            match parse_message_members_exec(v, r2 + 1) {
                None => {
                    return None;
                },
                Some((m, u2)) => {
                    message = Some(m);
                    u = u2;
                },
            }
        } else if str_is(&name, "key") && key.is_none() {
            if r2 >= v.len() {
                return None;
            }
            if v[r2] != '"' {
                return None;
            }
            match parse_string_body_exec(v, r2 + 1) {
                None => {
                    return None;
                },
                Some((t, u2)) => {
                    key = Some(t);
                    u = u2;
                },
            }
        } else {
            return None;
        }
        let w = skip_ws_exec(v, u);
        if w >= v.len() {
            return None;
        }
        if v[w] == ',' {
            i = w + 1;
        } else if v[w] == '}' {
            match (message, key) {
                (Some(m), Some(h)) => {
                    return Some((Notification::from_parts(m, h), w + 1));
                },
                _ => {
                    return None;
                },
            }
        } else {
            return None;
        }
    }
}

fn parse_notification_exec(v: &Vec<char>, start: usize) -> (r: Option<(Notification, usize)>)
    requires
        start <= v@.len(),
    ensures
        match r {
            Some(p) => parse_notification(v@, start as int) == Some((p.0@, p.1 as int)) && start
                < p.1 <= v@.len(),
            None => parse_notification(v@, start as int) is None,
        },
{
    if start < v.len() && v[start] == '{' {
        parse_notification_members_exec(v, start + 1)
    } else {
        None
    }
}

fn scan_object_exec(v: &Vec<char>, start: usize) -> (r: Option<usize>)
    requires
        1 <= start <= v@.len(),
    ensures
        match r {
            Some(j) => scan_object(v@, start as int, 1, false, false) == Some(j as int) && start
                < j <= v@.len(),
            None => scan_object(v@, start as int, 1, false, false) is None,
        },
{
    let mut i = start;
    let mut depth: usize = 1;
    let mut in_string = false;
    let mut escaped = false;
    loop
        invariant
            1 <= start <= i <= v@.len(),
            1 <= depth,
            depth as int <= 1 + i as int - start as int,
            in_string || !escaped,
            scan_object(v@, start as int, 1, false, false) == scan_object(
                v@,
                i as int,
                depth as int,
                in_string,
                escaped,
            ),
        decreases v@.len() - i,
    {
        if i >= v.len() {
            return None;
        }
        let c = v[i];
        if in_string {
            if escaped {
                escaped = false;
            } else if c == '\\' {
                escaped = true;
            } else if c == '"' {
                in_string = false;
            }
            i = i + 1;
        } else if c == '"' {
            in_string = true;
            i = i + 1;
        } else if c == '{' {
            depth = depth + 1;
            i = i + 1;
        } else if c == '}' {
            if depth <= 1 {
                return Some(i + 1);
            }
            depth = depth - 1;
            i = i + 1;
        } else {
            i = i + 1;
        }
    }
}

/// The JSON text of a notification assembled from its parts.
fn encode_parts(text: &str, time: u128, key: &str) -> (r: String)
    ensures
        r@ == encode_json(
            NotificationView { message: MessageView { text: text@, time }, key: key@ },
        ),
{
    let mut out = String::new();
    append_str(&mut out, "{\"message\":{\"text\":\"");
    escape_into(&mut out, text);
    append_str(&mut out, "\",\"time\":");
    let digits = u128_to_dec_string(time);
    append_str(&mut out, digits.as_str());
    append_str(&mut out, "},\"key\":\"");
    escape_into(&mut out, key);
    append_str(&mut out, "\"}");
    assert(out@ =~= encode_json(
        NotificationView { message: MessageView { text: text@, time }, key: key@ },
    ));
    out
}

proof fn lemma_escape_take_step(t: Seq<char>, i: int)
    requires
        0 <= i < t.len(),
    ensures
        escape_string(t.take(i + 1)) == escape_string(t.take(i)) + escape_char(t[i]),
    decreases i,
{
    if i == 0 {
        assert(t.take(1)[0] == t[0]);
        assert(t.take(1).drop_first() =~= Seq::<char>::empty());
        assert(t.take(0).len() == 0);
        assert(escape_string(Seq::<char>::empty()) =~= Seq::<char>::empty());
        assert(escape_string(t.take(1)) =~= escape_string(t.take(0)) + escape_char(t[0]));
    } else {
        lemma_escape_take_step(t.drop_first(), i - 1);
        assert(t.take(i + 1).drop_first() =~= t.drop_first().take(i));
        assert(t.take(i).drop_first() =~= t.drop_first().take(i - 1));
        assert(t.take(i + 1)[0] == t[0]);
        assert(t.take(i)[0] == t[0]);
        assert(escape_string(t.take(i + 1)) =~= escape_string(t.take(i)) + escape_char(t[i]));
    }
}

/// Append the JSON escape of `t` onto `out`.
pub(crate) fn escape_into(out: &mut String, t: &str)
    ensures
        final(out)@ == old(out)@ + escape_string(t@),
{
    let len = t.unicode_len();
    let mut i: usize = 0;
    assert(t@.take(0) =~= Seq::<char>::empty());
    assert(old(out)@ + escape_string(t@.take(0)) =~= old(out)@);
    while i < len
        invariant
            i <= len,
            len == t@.len(),
            out@ == old(out)@ + escape_string(t@.take(i as int)),
        decreases len - i,
    {
        let c = t.get_char(i);
        proof {
            lemma_escape_take_step(t@, i as int);
        }
        let code = c as u32;
        if c == '"' {
            push_char(out, '\\');
            push_char(out, '"');
        } else if c == '\\' {
            push_char(out, '\\');
            push_char(out, '\\');
        } else if code == 0x8 {
            push_char(out, '\\');
            push_char(out, 'b');
        } else if code == 0x9 {
            push_char(out, '\\');
            push_char(out, 't');
        } else if code == 0xa {
            push_char(out, '\\');
            push_char(out, 'n');
        } else if code == 0xc {
            push_char(out, '\\');
            push_char(out, 'f');
        } else if code == 0xd {
            push_char(out, '\\');
            push_char(out, 'r');
        } else if code < 0x20 {
            push_char(out, '\\');
            push_char(out, 'u');
            push_char(out, '0');
            push_char(out, '0');
            push_char(out, hex_digit_char_exec((code / 16) as u8));
            push_char(out, hex_digit_char_exec((code % 16) as u8));
        } else {
            push_char(out, c);
        }
        assert(out@ =~= old(out)@ + escape_string(t@.take(i as int + 1)));
        i = i + 1;
    }
    assert(t@.take(len as int) =~= t@);
}

proof fn lemma_hex_digit_char_val(d: u8)
    requires
        d < 16,
    ensures
        is_hex_digit(hex_digit_char(d)),
        hex_val(hex_digit_char(d)) == d,
{
}

/// Accumulator semantics of reading a run of decimal digit characters.
spec fn val10(acc: int, ds: Seq<char>) -> int
    decreases ds.len(),
{
    if ds.len() == 0 {
        acc
    } else {
        val10(acc * 10 + (ds[0] as u32 - 0x30), ds.drop_first())
    }
}

proof fn lemma_val10_snoc(acc: int, ds: Seq<char>, d: char)
    ensures
        val10(acc, ds.push(d)) == val10(acc, ds) * 10 + (d as u32 - 0x30),
    decreases ds.len(),
{
    if ds.len() == 0 {
        assert(ds.push(d)[0] == d);
        assert(ds.push(d).drop_first() =~= Seq::<char>::empty());
        assert(val10(acc * 10 + (d as u32 - 0x30), Seq::<char>::empty()) == acc * 10 + (d as u32
            - 0x30));
    } else {
        assert(ds.push(d)[0] == ds[0]);
        assert(ds.push(d).drop_first() =~= ds.drop_first().push(d));
        lemma_val10_snoc(acc * 10 + (ds[0] as u32 - 0x30), ds.drop_first(), d);
    }
}

proof fn lemma_val10_mono(acc: int, ds: Seq<char>)
    requires
        acc >= 0,
        forall|k: int| 0 <= k < ds.len() ==> is_dec_digit(#[trigger] ds[k]),
    ensures
        val10(acc, ds) >= acc,
    decreases ds.len(),
{
    if ds.len() > 0 {
        assert(is_dec_digit(ds[0]));
        assert(forall|k: int|
            0 <= k < ds.drop_first().len() ==> is_dec_digit(#[trigger] ds.drop_first()[k]));
        lemma_val10_mono(acc * 10 + (ds[0] as u32 - 0x30), ds.drop_first());
    }
}

proof fn lemma_dec_chars_props(n: u128)
    ensures
        dec_chars(n).len() >= 1,
        forall|k: int| 0 <= k < dec_chars(n).len() ==> is_dec_digit(#[trigger] dec_chars(n)[k]),
        val10(0, dec_chars(n)) == n,
        n > 0 ==> dec_chars(n)[0] != '0',
        n == 0 ==> dec_chars(n) =~= seq!['0'],
    decreases n,
{
    if n < 10 {
        let c = ((0x30 + n) as u8) as char;
        assert(dec_chars(n) =~= seq![c]);
        assert(seq![c].drop_first() =~= Seq::<char>::empty());
        assert(val10((c as u32 - 0x30) as int, Seq::<char>::empty()) == c as u32 - 0x30);
        assert(val10(0, dec_chars(n)) == n);
    } else {
        lemma_dec_chars_props((n / 10) as u128);
        let c = ((0x30 + (n % 10)) as u8) as char;
        assert(dec_chars(n) =~= dec_chars((n / 10) as u128).push(c));
        lemma_val10_snoc(0, dec_chars((n / 10) as u128), c);
        assert(dec_chars(n)[0] == dec_chars((n / 10) as u128)[0]);
    }
}

/// Escaping a string without special characters leaves it unchanged.
proof fn lemma_escape_plain(t: Seq<char>)
    requires
        forall|k: int|
            0 <= k < t.len() ==> (#[trigger] t[k]) as u32 >= 0x20 && t[k] != '"' && t[k] != '\\',
    ensures
        escape_string(t) == t,
    decreases t.len(),
{
    if t.len() > 0 {
        assert(t[0] as u32 >= 0x20 && t[0] != '"' && t[0] != '\\');
        assert(forall|k: int|
            0 <= k < t.drop_first().len() ==> (#[trigger] t.drop_first()[k]) as u32 >= 0x20
                && t.drop_first()[k] != '"' && t.drop_first()[k] != '\\');
        lemma_escape_plain(t.drop_first());
        assert(escape_char(t[0]) =~= seq![t[0]]);
        assert(escape_string(t) =~= t);
    } else {
        assert(escape_string(t) =~= t);
    }
}

proof fn lemma_parse_digits_exact(s: Seq<char>, i: int, len_d: int, acc: u128)
    requires
        0 <= i,
        0 <= len_d,
        i + len_d <= s.len(),
        forall|k: int| i <= k < i + len_d ==> is_dec_digit(#[trigger] s[k]),
        i + len_d == s.len() || !is_dec_digit(s[i + len_d]),
        val10(acc as int, s.subrange(i, i + len_d)) <= u128::MAX as int,
    ensures
        parse_digits(s, i, acc) == Some(
            (val10(acc as int, s.subrange(i, i + len_d)) as u128, i + len_d),
        ),
    decreases len_d,
{
    let block = s.subrange(i, i + len_d);
    if len_d == 0 {
        assert(block =~= Seq::<char>::empty());
        assert(val10(acc as int, block) == acc);
    } else {
        assert(is_dec_digit(s[i]));
        let d = (s[i] as u32 - 0x30) as int;
        let block2 = s.subrange(i + 1, i + len_d);
        assert(block.drop_first() =~= block2);
        assert(block[0] == s[i]);
        assert(forall|k: int| 0 <= k < block2.len() ==> is_dec_digit(#[trigger] block2[k]));
        lemma_val10_mono(acc as int * 10 + d, block2);
        assert(val10(acc as int, block) == val10(acc as int * 10 + d, block2));
        assert(acc as int * 10 + d <= u128::MAX as int);
        lemma_parse_digits_exact(s, i + 1, len_d - 1, (acc as int * 10 + d) as u128);
    }
}

proof fn lemma_parse_number_encoded(s: Seq<char>, i: int, n: u128)
    requires
        0 <= i,
        i + dec_chars(n).len() <= s.len(),
        s.subrange(i, i + dec_chars(n).len()) == dec_chars(n),
        i + dec_chars(n).len() == s.len() || !is_dec_digit(s[i + dec_chars(n).len()]),
    ensures
        parse_number(s, i) == Some((n, i + dec_chars(n).len())),
{
    lemma_dec_chars_props(n);
    let dt = dec_chars(n);
    assert forall|k: int| 0 <= k < dt.len() implies s[i + k] == dt[k] by {
        assert(s.subrange(i, i + dt.len())[k] == s[i + k]);
    }
    assert(s[i] == dt[0]);
    assert(is_dec_digit(s[i]));
    assert forall|k: int| i <= k < i + dt.len() implies is_dec_digit(#[trigger] s[k]) by {
        assert(s[k] == dt[k - i]);
    }
    if n == 0 {
        assert(dt =~= seq!['0']);
        assert(s[i] == '0');
    } else {
        assert(s[i] != '0');
        lemma_parse_digits_exact(s, i, dt.len() as int, 0);
        assert(val10(0, s.subrange(i, i + dt.len())) == val10(0, dt));
    }
}

proof fn lemma_parse_string_encoded(s: Seq<char>, i: int, t: Seq<char>, acc: Seq<char>)
    requires
        0 <= i,
        i + escape_string(t).len() + 1 <= s.len(),
        s.subrange(i, i + escape_string(t).len() + 1) == escape_string(t) + seq!['"'],
    ensures
        parse_string_body(s, i, acc) == Some((acc + t, i + escape_string(t).len() + 1)),
    decreases t.len(),
{
    let e = escape_string(t);
    let sub = s.subrange(i, i + e.len() + 1);
    assert forall|k: int| 0 <= k < e.len() + 1 implies s[i + k] == (e + seq!['"'])[k] by {
        assert(sub[k] == s[i + k]);
    }
    if t.len() == 0 {
        assert(e.len() == 0);
        assert(s[i + 0] == (e + seq!['"'])[0]);
        assert((e + seq!['"'])[0] == '"');
        assert(acc + t =~= acc);
    } else {
        let c = t[0];
        let t2 = t.drop_first();
        let ec = escape_char(c);
        let e2 = escape_string(t2);
        assert(e == ec + e2);
        assert forall|k: int|
            0 <= k < e2.len() + 1 implies #[trigger] (e2 + seq!['"'])[k] == s[i + ec.len()
            + k] by {
            assert((e + seq!['"'])[ec.len() + k] == (e2 + seq!['"'])[k]);
            assert(s[i + (ec.len() + k)] == (e + seq!['"'])[ec.len() + k]);
        }
        assert(s.subrange(i + ec.len(), i + ec.len() + e2.len() + 1) =~= e2 + seq!['"']);
        assert(s[i + 0] == (e + seq!['"'])[0]);
        if (c as u32) < 0x20 && c != '\u{8}' && c != '\t' && c != '\n' && c != '\u{c}' && c
            != '\r' {
            let code = c as u32;
            let h1 = hex_digit_char((code / 16) as u8);
            let h2 = hex_digit_char((code % 16) as u8);
            assert(ec == seq!['\\', 'u', '0', '0', h1, h2]);
            assert(s[i + 1] == (e + seq!['"'])[1]);
            assert(s[i + 2] == (e + seq!['"'])[2]);
            assert(s[i + 3] == (e + seq!['"'])[3]);
            assert(s[i + 4] == (e + seq!['"'])[4]);
            assert(s[i + 5] == (e + seq!['"'])[5]);
            assert(s[i] == '\\' && s[i + 1] == 'u' && s[i + 2] == '0' && s[i + 3] == '0' && s[i + 4]
                == h1 && s[i + 5] == h2);
            lemma_hex_digit_char_val((code / 16) as u8);
            lemma_hex_digit_char_val((code % 16) as u8);
            assert(is_hex_digit('0') && hex_val('0') == 0);
            let v = (hex_val(s[i + 2]) as u32 * 4096 + hex_val(s[i + 3]) as u32 * 256 + hex_val(
                s[i + 4],
            ) as u32 * 16 + hex_val(s[i + 5]) as u32) as u32;
            assert(v == code);
            char_u32_cast(c, code);
            assert(v as char == c);
            lemma_parse_string_encoded(s, i + 6, t2, acc.push(c));
            assert(acc.push(c) + t2 =~= acc + t);
        } else if c == '"' || c == '\\' || (c as u32) < 0x20 {
            let x: char = if c == '"' {
                '"'
            } else if c == '\\' {
                '\\'
            } else if c == '\u{8}' {
                'b'
            } else if c == '\t' {
                't'
            } else if c == '\n' {
                'n'
            } else if c == '\u{c}' {
                'f'
            } else {
                'r'
            };
            assert(ec == seq!['\\', x]);
            assert(s[i + 1] == (e + seq!['"'])[1]);
            assert(s[i] == '\\' && s[i + 1] == x);
            lemma_parse_string_encoded(s, i + 2, t2, acc.push(c));
            assert(acc.push(c) + t2 =~= acc + t);
        } else {
            assert(ec == seq![c]);
            assert(s[i] == c);
            assert(c != '"' && c != '\\' && (c as u32) >= 0x20);
            lemma_parse_string_encoded(s, i + 1, t2, acc.push(c));
            assert(acc.push(c) + t2 =~= acc + t);
        }
    }
}

/// Body of the inner message object as the encoder writes it, from just
/// after its opening brace through its closing brace.
spec fn encode_message_body(m: MessageView) -> Seq<char> {
    "\"text\":\""@ + escape_string(m.text) + "\",\"time\":"@ + dec_chars(m.time) + "}"@
}

proof fn lemma_parse_message_encoded(s: Seq<char>, i: int, m: MessageView)
    requires
        0 <= i,
        i + encode_message_body(m).len() <= s.len(),
        s.subrange(i, i + encode_message_body(m).len()) == encode_message_body(m),
    ensures
        parse_message_members(s, i, None, None) == Some((m, i + encode_message_body(m).len())),
{
    reveal_strlit("\"text\":\"");
    reveal_strlit("\",\"time\":");
    reveal_strlit("}");
    reveal_strlit("text");
    reveal_strlit("time");
    let g1 = "\"text\":\""@;
    let g2 = "\",\"time\":"@;
    let g3 = "}"@;
    let et = escape_string(m.text);
    let dt = dec_chars(m.time);
    let body = encode_message_body(m);
    assert(g1.len() == 8 && g2.len() == 9 && g3.len() == 1);
    lemma_dec_chars_props(m.time);
    let le = et.len() as int;
    let ld = dt.len() as int;
    assert(body.len() == 18 + le + ld);
    assert forall|k: int| 0 <= k < body.len() implies s[i + k] == body[k] by {
        assert(s.subrange(i, i + body.len())[k] == s[i + k]);
    }
    // characters of the fixed fragments
    assert(s[i + 0] == body[0] && body[0] == '"');
    assert(s[i + 6] == body[6] && body[6] == ':');
    assert(s[i + 7] == body[7] && body[7] == '"');
    // the member name `text`
    reveal_strlit("{");
    lemma_escape_plain("text"@);
    assert forall|j: int|
        0 <= j < 5 implies s.subrange(i + 1, i + 6)[j] == ("text"@ + seq!['"'])[j] by {
        assert(s.subrange(i + 1, i + 6)[j] == s[i + (1 + j)]);
        assert(s[i + (1 + j)] == body[1 + j]);
    }
    assert(s.subrange(i + 1, i + 6) =~= "text"@ + seq!['"']);
    assert(s.subrange(i + 1, i + 1 + escape_string("text"@).len() + 1) == escape_string("text"@)
        + seq!['"']);
    lemma_parse_string_encoded(s, i + 1, "text"@, Seq::<char>::empty());
    assert(Seq::<char>::empty() + "text"@ =~= "text"@);
    // the text member value
    assert forall|j: int|
        0 <= j < le + 1 implies s.subrange(i + 8, i + 9 + le)[j] == (et + seq!['"'])[j] by {
        assert(s.subrange(i + 8, i + 9 + le)[j] == s[i + (8 + j)]);
        assert(s[i + (8 + j)] == body[8 + j]);
        if j < le {
            assert(body[8 + j] == et[j]);
        } else {
            assert(body[8 + le] == g2[0]);
        }
    }
    assert(s.subrange(i + 8, i + 8 + et.len() + 1) =~= et + seq!['"']);
    lemma_parse_string_encoded(s, i + 8, m.text, Seq::<char>::empty());
    assert(Seq::<char>::empty() + m.text =~= m.text);
    let u = i + 9 + le;
    // separator and the member name `time`
    assert(s[i + (9 + le)] == body[9 + le] && body[9 + le] == g2[1] && g2[1] == ',');
    assert(s[i + (10 + le)] == body[10 + le] && body[10 + le] == g2[2] && g2[2] == '"');
    assert forall|j: int|
        0 <= j < 5 implies s.subrange(u + 2, u + 7)[j] == ("time"@ + seq!['"'])[j] by {
        assert(s.subrange(u + 2, u + 7)[j] == s[i + (11 + le + j)]);
        assert(s[i + (11 + le + j)] == body[11 + le + j]);
        assert(body[11 + le + j] == g2[3 + j]);
    }
    assert(s.subrange(u + 2, u + 7) =~= "time"@ + seq!['"']);
    lemma_escape_plain("time"@);
    assert(s.subrange(u + 2, u + 2 + escape_string("time"@).len() + 1) == escape_string("time"@)
        + seq!['"']);
    lemma_parse_string_encoded(s, u + 2, "time"@, Seq::<char>::empty());
    assert(Seq::<char>::empty() + "time"@ =~= "time"@);
    assert(s[i + (16 + le)] == body[16 + le] && body[16 + le] == g2[8] && g2[8] == ':');
    // the time member value
    assert forall|j: int| 0 <= j < ld implies s.subrange(u + 8, u + 8 + ld)[j] == dt[j] by {
        assert(s.subrange(u + 8, u + 8 + ld)[j] == s[i + (17 + le + j)]);
        assert(s[i + (17 + le + j)] == body[17 + le + j]);
        assert(body[17 + le + j] == dt[j]);
    }
    assert(s.subrange(u + 8, u + 8 + dt.len()) =~= dt);
    assert(s[i + (17 + le + ld)] == body[17 + le + ld] && body[17 + le + ld] == g3[0] && g3[0]
        == '}');
    assert(!is_dec_digit('}'));
    lemma_parse_number_encoded(s, u + 8, m.time);
    // walk the member loop
    assert("time"@[1] == 'i' && "text"@[1] == 'e');
    assert("time"@ != "text"@);
    assert(is_dec_digit(dt[0]) && !is_json_ws(s[u + 8]));
    let u2 = u + 8 + ld;
    assert(s[u2] == '}');
    assert(skip_ws(s, i) == i);
    assert(skip_ws(s, i + 6) == i + 6);
    assert(skip_ws(s, i + 7) == i + 7);
    assert(skip_ws(s, u) == u);
    assert(skip_ws(s, u + 1) == u + 1);
    assert(skip_ws(s, u + 7) == u + 7);
    assert(skip_ws(s, u + 8) == u + 8);
    assert(skip_ws(s, u2) == u2);
    assert(parse_message_members(s, u + 1, Some(m.text), None) == Some((m, u2 + 1)));
    assert(parse_message_members(s, i, None, None) == Some((m, u2 + 1)));
    assert(u2 + 1 == i + body.len());
}

/// The shape of an encoded notification: where each fixed fragment, the
/// escaped text, the decimal time and the escaped key stand in it.
spec fn enc_layout(n: NotificationView) -> bool {
    let enc = encode_json(n);
    let le = escape_string(n.message.text).len() as int;
    let ld = dec_chars(n.message.time).len() as int;
    let lk = escape_string(n.key).len() as int;
    &&& enc.len() == 40 + le + ld + lk
    &&& enc[0] == '{'
    &&& enc[1] == '"'
    &&& enc.subrange(2, 10) == "message"@ + seq!['"']
    &&& enc[10] == ':'
    &&& enc[11] == '{'
    &&& enc.subrange(12, 30 + le + ld) == encode_message_body(n.message)
    &&& enc[30 + le + ld] == ','
    &&& enc[31 + le + ld] == '"'
    &&& enc.subrange(32 + le + ld, 36 + le + ld) == "key"@ + seq!['"']
    &&& enc[36 + le + ld] == ':'
    &&& enc[37 + le + ld] == '"'
    &&& enc.subrange(38 + le + ld, 39 + le + ld + lk) == escape_string(n.key) + seq!['"']
    &&& enc[39 + le + ld + lk] == '}'
}

#[verifier::spinoff_prover]
#[verifier::rlimit(100)]
proof fn lemma_enc_layout(n: NotificationView)
    ensures
        enc_layout(n),
{
    reveal_strlit("{\"message\":{\"text\":\"");
    reveal_strlit("\",\"time\":");
    reveal_strlit("},\"key\":\"");
    reveal_strlit("\"}");
    reveal_strlit("\"text\":\"");
    reveal_strlit("}");
    reveal_strlit("message");
    reveal_strlit("key");
    let h1 = "{\"message\":{\"text\":\""@;
    let h2 = "\",\"time\":"@;
    let h3 = "},\"key\":\""@;
    let h4 = "\"}"@;
    let g1 = "\"text\":\""@;
    let et = escape_string(n.message.text);
    let dt = dec_chars(n.message.time);
    let ek = escape_string(n.key);
    let enc = encode_json(n);
    let le = et.len() as int;
    let ld = dt.len() as int;
    let lk = ek.len() as int;
    assert(h1.len() == 20 && h2.len() == 9 && h3.len() == 9 && h4.len() == 2 && g1.len() == 8);
    lemma_dec_chars_props(n.message.time);
    assert(enc.len() == 40 + le + ld + lk);
    assert(enc[0] == h1[0]);
    assert(enc[1] == h1[1]);
    assert forall|j: int|
        0 <= j < 8 implies enc.subrange(2, 10)[j] == ("message"@ + seq!['\"'])[j] by {
        assert(enc.subrange(2, 10)[j] == enc[2 + j]);
        assert(enc[2 + j] == h1[2 + j]);
    }
    assert(enc.subrange(2, 10) =~= "message"@ + seq!['\"']);
    assert(enc[10] == h1[10]);
    assert(enc[11] == h1[11]);
    let body = encode_message_body(n.message);
    assert(body.len() == 18 + le + ld);
    assert forall|j: int|
        0 <= j < body.len() implies enc.subrange(12, 30 + le + ld)[j] == body[j] by {
        assert(enc.subrange(12, 30 + le + ld)[j] == enc[12 + j]);
        if j < 8 {
            assert(enc[12 + j] == h1[12 + j]);
            assert(body[j] == g1[j]);
            assert(h1[12 + j] == g1[j]);
        } else if j < 8 + le {
            assert(enc[12 + j] == et[j - 8]);
            assert(body[j] == et[j - 8]);
        } else if j < 17 + le {
            assert(enc[12 + j] == h2[j - 8 - le]);
            assert(body[j] == h2[j - 8 - le]);
        } else if j < 17 + le + ld {
            assert(enc[12 + j] == dt[j - 17 - le]);
            assert(body[j] == dt[j - 17 - le]);
        } else {
            assert(enc[12 + j] == h3[0]);
            assert(body[j] == "}"@[0]);
        }
    }
    assert(enc.subrange(12, 30 + le + ld) =~= body);
    assert(enc[30 + le + ld] == h3[1]);
    assert(enc[31 + le + ld] == h3[2]);
    assert forall|j: int|
        0 <= j < 4 implies enc.subrange(32 + le + ld, 36 + le + ld)[j] == ("key"@ + seq!['\"'])[
        j] by {
        assert(enc.subrange(32 + le + ld, 36 + le + ld)[j] == enc[32 + le + ld + j]);
        assert(enc[32 + le + ld + j] == h3[3 + j]);
    }
    assert(enc.subrange(32 + le + ld, 36 + le + ld) =~= "key"@ + seq!['\"']);
    assert(enc[36 + le + ld] == h3[7]);
    assert(enc[37 + le + ld] == h3[8]);
    assert forall|j: int|
        0 <= j < lk + 1 implies enc.subrange(38 + le + ld, 39 + le + ld + lk)[j] == (ek + seq![
        '\"'])[j] by {
        assert(enc.subrange(38 + le + ld, 39 + le + ld + lk)[j] == enc[38 + le + ld + j]);
        if j < lk {
            assert(enc[38 + le + ld + j] == ek[j]);
        } else {
            assert(enc[38 + le + ld + lk] == h4[0]);
        }
    }
    assert(enc.subrange(38 + le + ld, 39 + le + ld + lk) =~= ek + seq!['\"']);
    assert(enc[39 + le + ld + lk] == h4[1]);
}

proof fn lemma_name_facts()
    ensures
        escape_string("message"@) == "message"@,
        escape_string("key"@) == "key"@,
        "key"@ != "message"@,
        "message"@.len() == 7,
        "key"@.len() == 3,
{
    reveal_strlit("message");
    reveal_strlit("key");
    lemma_escape_plain("message"@);
    lemma_escape_plain("key"@);
}

proof fn lemma_subrange_transfer(s: Seq<char>, i: int, w: Seq<char>, a: int, b: int)
    requires
        0 <= i,
        i + w.len() <= s.len(),
        s.subrange(i, i + w.len() as int) == w,
        0 <= a <= b <= w.len(),
    ensures
        s.subrange(i + a, i + b) == w.subrange(a, b),
{
    assert forall|j: int|
        0 <= j < b - a implies s.subrange(i + a, i + b)[j] == w.subrange(a, b)[j] by {
        assert(s.subrange(i, i + w.len() as int)[a + j] == s[i + (a + j)]);
        assert(s.subrange(i + a, i + b)[j] == s[i + a + j]);
    }
    assert(s.subrange(i + a, i + b) =~= w.subrange(a, b));
}

#[verifier::spinoff_prover]
#[verifier::rlimit(100)]
proof fn lemma_parse_encoded(s: Seq<char>, i: int, n: NotificationView)
    requires
        0 <= i,
        i + encode_json(n).len() <= s.len(),
        s.subrange(i, i + encode_json(n).len()) == encode_json(n),
    ensures
        parse_notification(s, i) == Some((n, i + encode_json(n).len())),
{
    lemma_enc_layout(n);
    lemma_name_facts();
    let enc = encode_json(n);
    let et = escape_string(n.message.text);
    let dt = dec_chars(n.message.time);
    let ek = escape_string(n.key);
    let le = et.len() as int;
    let ld = dt.len() as int;
    let lk = ek.len() as int;
    let lenc = enc.len() as int;
    assert forall|k: int| 0 <= k < lenc implies s[i + k] == enc[k] by {
        assert(s.subrange(i, i + lenc)[k] == s[i + k]);
    }
    assert(s[i + 0] == enc[0]);
    assert(s[i + 1] == enc[1]);
    // the member name `message`
    lemma_subrange_transfer(s, i, enc, 2, 10);
    assert(enc.subrange(2, 10) =~= enc.subrange(2, 10).subrange(0, 8));
    assert(s.subrange(i + 2, i + 10) == "message"@ + seq!['\"']);
    lemma_parse_string_encoded(s, i + 2, "message"@, Seq::<char>::empty());
    assert(Seq::<char>::empty() + "message"@ =~= "message"@);
    assert(s[i + 10] == enc[10]);
    assert(s[i + 11] == enc[11]);
    // the inner message object
    let body = encode_message_body(n.message);
    assert(body.len() == 18 + le + ld);
    lemma_subrange_transfer(s, i, enc, 12, 30 + le + ld);
    assert(enc.subrange(12, 30 + le + ld) =~= enc.subrange(12, 30 + le + ld).subrange(
        0,
        18 + le + ld,
    ));
    assert(s.subrange(i + 12, i + 12 + body.len()) == body);
    lemma_parse_message_encoded(s, i + 12, n.message);
    let p = i + 30 + le + ld;
    assert(s[i + (30 + le + ld)] == enc[30 + le + ld]);
    assert(s[i + (31 + le + ld)] == enc[31 + le + ld]);
    // the member name `key`
    lemma_subrange_transfer(s, i, enc, 32 + le + ld, 36 + le + ld);
    assert(enc.subrange(32 + le + ld, 36 + le + ld) =~= enc.subrange(
        32 + le + ld,
        36 + le + ld,
    ).subrange(0, 4));
    assert(s.subrange(p + 2, p + 6) == "key"@ + seq!['\"']);
    lemma_parse_string_encoded(s, p + 2, "key"@, Seq::<char>::empty());
    assert(Seq::<char>::empty() + "key"@ =~= "key"@);
    assert(s[i + (36 + le + ld)] == enc[36 + le + ld]);
    assert(s[i + (37 + le + ld)] == enc[37 + le + ld]);
    // the key member value
    lemma_subrange_transfer(s, i, enc, 38 + le + ld, 39 + le + ld + lk);
    assert(enc.subrange(38 + le + ld, 39 + le + ld + lk) =~= enc.subrange(
        38 + le + ld,
        39 + le + ld + lk,
    ).subrange(0, lk + 1));
    assert(s.subrange(p + 8, p + 8 + ek.len() + 1) == ek + seq!['\"']);
    lemma_parse_string_encoded(s, p + 8, n.key, Seq::<char>::empty());
    assert(Seq::<char>::empty() + n.key =~= n.key);
    let u4 = p + 9 + lk;
    assert(s[i + (39 + le + ld + lk)] == enc[39 + le + ld + lk]);
    assert(s[u4] == '}');
    // walk the member loop
    assert(skip_ws(s, i + 1) == i + 1);
    assert(skip_ws(s, i + 10) == i + 10);
    assert(skip_ws(s, i + 11) == i + 11);
    assert(skip_ws(s, p) == p);
    assert(skip_ws(s, p + 1) == p + 1);
    assert(skip_ws(s, p + 6) == p + 6);
    assert(skip_ws(s, p + 7) == p + 7);
    assert(skip_ws(s, u4) == u4);
    assert(parse_notification_members(s, p + 1, Some(n.message), None) == Some((n, u4 + 1)));
    assert(parse_notification_members(s, i + 1, None, None) == Some((n, u4 + 1)));
    assert(u4 + 1 == i + enc.len());
}

/// Concatenation of the encodings of several notifications.
pub open spec fn encode_list(vs: Seq<NotificationView>) -> Seq<char>
    decreases vs.len(),
{
    if vs.len() == 0 {
        Seq::<char>::empty()
    } else {
        encode_json(vs[0]) + encode_list(vs.drop_first())
    }
}

/// The fully successful decoding of a sequence of notifications.
pub open spec fn all_decoded(vs: Seq<NotificationView>) -> Seq<Option<NotificationView>> {
    vs.map_values(|v: NotificationView| Some(v))
}

proof fn lemma_encode_json_head(n: NotificationView)
    ensures
        encode_json(n).len() >= 40,
        encode_json(n)[0] == '{',
{
    reveal_strlit("{\"message\":{\"text\":\"");
    reveal_strlit("\",\"time\":");
    reveal_strlit("},\"key\":\"");
    reveal_strlit("\"}");
    let h1 = "{\"message\":{\"text\":\""@;
    assert(h1.len() == 20);
    assert(encode_json(n)[0] == h1[0]);
}

#[verifier::rlimit(100)]
proof fn lemma_decode_encoded_run(s: Seq<char>, i: int, vs: Seq<NotificationView>, e: int)
    requires
        0 <= i <= e <= s.len(),
        s.subrange(i, e) == encode_list(vs),
    ensures
        decode_all(s, i) == all_decoded(vs) + decode_all(s, e),
    decreases vs.len(),
{
    if vs.len() == 0 {
        assert(e - i == 0);
        assert(all_decoded(vs) + decode_all(s, e) =~= decode_all(s, i));
    } else {
        let n = vs[0];
        let enc = encode_json(n);
        let l0 = enc.len() as int;
        lemma_encode_json_head(n);
        assert(encode_list(vs).len() == l0 + encode_list(vs.drop_first()).len());
        assert(e - i >= l0);
        assert forall|k: int| 0 <= k < l0 implies s.subrange(i, i + l0)[k] == enc[k] by {
            assert(s.subrange(i, i + l0)[k] == s[i + k]);
            assert(s.subrange(i, e)[k] == s[i + k]);
            assert(encode_list(vs)[k] == enc[k]);
        }
        assert(s.subrange(i, i + l0) =~= enc);
        lemma_parse_encoded(s, i, n);
        assert(s[i + 0] == s.subrange(i, e)[0]);
        assert(s[i] == '{');
        assert(skip_ws(s, i) == i);
        assert forall|k: int|
            0 <= k < e - i - l0 implies s.subrange(i + l0, e)[k] == encode_list(
            vs.drop_first(),
        )[k] by {
            assert(s.subrange(i + l0, e)[k] == s[i + l0 + k]);
            assert(s.subrange(i, e)[l0 + k] == s[i + (l0 + k)]);
            assert(encode_list(vs)[l0 + k] == encode_list(vs.drop_first())[k]);
        }
        assert(s.subrange(i + l0, e) =~= encode_list(vs.drop_first()));
        lemma_decode_encoded_run(s, i + l0, vs.drop_first(), e);
        assert(decode_all(s, i) == seq![Some(n)] + decode_all(s, i + l0));
        assert(all_decoded(vs) =~= seq![Some(n)] + all_decoded(vs.drop_first()));
        assert(seq![Some(n)] + (all_decoded(vs.drop_first()) + decode_all(s, e)) =~= all_decoded(vs)
            + decode_all(s, e));
    }
}

/// Decoding a notification's JSON encoding yields exactly that notification.
pub proof fn lemma_json_round_trip(n: NotificationView)
    ensures
        decode_single(encode_json(n)) == Some(n),
{
    let s = encode_json(n);
    assert(s.subrange(0, s.len() as int) =~= s);
    lemma_parse_encoded(s, 0, n);
    lemma_encode_json_head(n);
    assert(skip_ws(s, 0) == 0);
    assert(skip_ws(s, s.len() as int) == s.len());
}

/// A payload holding the encodings of several notifications, one after the
/// other, decodes to exactly those notifications, in order.
pub proof fn lemma_multi_decode(vs: Seq<NotificationView>)
    ensures
        decode_all(encode_list(vs), 0) == all_decoded(vs),
{
    let s = encode_list(vs);
    assert(s.subrange(0, s.len() as int) =~= s);
    lemma_decode_encoded_run(s, 0, vs, s.len() as int);
    assert(skip_ws(s, s.len() as int) == s.len());
    assert(decode_all(s, s.len() as int) =~= Seq::<Option<NotificationView>>::empty());
    assert(all_decoded(vs) + Seq::<Option<NotificationView>>::empty() =~= all_decoded(vs));
}

proof fn lemma_scan_object_shift(
    pre: Seq<char>,
    g: Seq<char>,
    suf: Seq<char>,
    k: int,
    depth: int,
    in_string: bool,
    escaped: bool,
    j: int,
)
    requires
        0 <= k <= g.len(),
        scan_object(g, k, depth, in_string, escaped) == Some(j),
    ensures
        scan_object(pre + g + suf, pre.len() + k, depth, in_string, escaped) == Some(
            pre.len() + j,
        ),
    decreases g.len() - k,
{
    let s = pre + g + suf;
    assert(k < g.len());
    assert(s[pre.len() + k] == g[k]);
    let c = g[k];
    if in_string {
        if escaped {
            lemma_scan_object_shift(pre, g, suf, k + 1, depth, true, false, j);
        } else if c == '\\' {
            lemma_scan_object_shift(pre, g, suf, k + 1, depth, true, true, j);
        } else if c == '"' {
            lemma_scan_object_shift(pre, g, suf, k + 1, depth, false, false, j);
        } else {
            lemma_scan_object_shift(pre, g, suf, k + 1, depth, true, false, j);
        }
    } else if c == '"' {
        lemma_scan_object_shift(pre, g, suf, k + 1, depth, true, false, j);
    } else if c == '{' {
        lemma_scan_object_shift(pre, g, suf, k + 1, depth + 1, false, false, j);
    } else if c == '}' {
        if depth > 1 {
            lemma_scan_object_shift(pre, g, suf, k + 1, depth - 1, false, false, j);
        }
    } else {
        lemma_scan_object_shift(pre, g, suf, k + 1, depth, false, false, j);
    }
}

/// A malformed but brace-balanced object standing between well-formed frames
/// yields exactly one error entry in its position; the frames before and
/// after it all decode.
pub proof fn lemma_multi_decode_with_malformed(
    a: Seq<NotificationView>,
    g: Seq<char>,
    b: Seq<NotificationView>,
)
    requires
        g.len() > 0,
        g[0] == '{',
        scan_object(g, 1, 1, false, false) == Some(g.len() as int),
        parse_notification(
            encode_list(a) + g + encode_list(b),
            encode_list(a).len() as int,
        ) is None,
    ensures
        decode_all(encode_list(a) + g + encode_list(b), 0) == all_decoded(a) + seq![
            Option::<NotificationView>::None,
        ] + all_decoded(b),
{
    let ea = encode_list(a);
    let eb = encode_list(b);
    let s = ea + g + eb;
    let la = ea.len() as int;
    let lg = g.len() as int;
    assert forall|k: int| 0 <= k < la implies s.subrange(0, la)[k] == ea[k] by {
        assert(s.subrange(0, la)[k] == s[k]);
    }
    assert(s.subrange(0, la) =~= ea);
    lemma_decode_encoded_run(s, 0, a, la);
    assert(s[la + 0] == g[0]);
    assert(skip_ws(s, la) == la);
    lemma_scan_object_shift(ea, g, eb, 1, 1, false, false, lg);
    assert(scan_object(s, la + 1, 1, false, false) == Some(la + lg));
    assert(decode_all(s, la) == seq![Option::<NotificationView>::None] + decode_all(s, la + lg));
    assert forall|k: int|
        0 <= k < eb.len() implies s.subrange(la + lg, s.len() as int)[k] == eb[k] by {
        assert(s.subrange(la + lg, s.len() as int)[k] == s[la + lg + k]);
    }
    assert(s.subrange(la + lg, s.len() as int) =~= eb);
    lemma_decode_encoded_run(s, la + lg, b, s.len() as int);
    assert(skip_ws(s, s.len() as int) == s.len());
    assert(decode_all(s, s.len() as int) =~= Seq::<Option<NotificationView>>::empty());
    assert(all_decoded(b) + Seq::<Option<NotificationView>>::empty() =~= all_decoded(b));
    assert(all_decoded(a) + (seq![Option::<NotificationView>::None] + all_decoded(b))
        =~= all_decoded(a) + seq![Option::<NotificationView>::None] + all_decoded(b));
}

impl Notification {
    /// Serialize this `Notification` to its JSON wire form.
    pub fn to_json(&self) -> (r: Result<String, Error>)
        ensures
            r matches Ok(s) && s@ == encode_json(self@),
    {
        let message = self.message();
        Ok(encode_parts(message.text(), message.time(), self.key()))
    }

    /// Parse a single `Notification` from JSON; the payload must hold
    /// exactly one notification object, surrounded by whitespace at most.
    pub fn from_json(input: &str) -> (r: Result<Notification, Error>)
        ensures
            match r {
                Ok(n) => decode_single(input@) == Some(n@),
                Err(e) => decode_single(input@) is None && e == Error::JsonDecode,
            },
    {
        let chars = str_to_chars(input);
        let j = skip_ws_exec(&chars, 0);
        match parse_notification_exec(&chars, j) {
            None => Err(Error::JsonDecode),
            Some((n, k)) => {
                let e = skip_ws_exec(&chars, k);
                if e == chars.len() {
                    Ok(n)
                } else {
                    Err(Error::JsonDecode)
                }
            },
        }
    }

    /// Parse every `Notification` from a payload of one or more concatenated
    /// JSON values. Each value yields one entry, in order; a malformed value
    /// yields an error entry, and decoding continues past it when its braces
    /// balance.
    pub fn from_json_multi(input: &str) -> (r: Vec<Result<Notification, Error>>)
        ensures
            results_view(r@) == decode_all(input@, 0),
            forall|i: int|
                0 <= i < r@.len() ==> (#[trigger] r@[i] matches Err(e) ==> e == Error::JsonDecode),
    {
        let chars = str_to_chars(input);
        let mut out: Vec<Result<Notification, Error>> = Vec::new();
        let mut i: usize = 0;
        assert(results_view(out@) + decode_all(chars@, 0) =~= decode_all(chars@, 0));
        loop
            invariant
                i <= chars@.len(),
                chars@ == input@,
                decode_all(input@, 0) == results_view(out@) + decode_all(chars@, i as int),
                forall|j: int|
                    0 <= j < out@.len() ==> (#[trigger] out@[j] matches Err(e) ==> e
                        == Error::JsonDecode),
            decreases chars@.len() - i,
        {
            let ghost prev = out@;
            let j = skip_ws_exec(&chars, i);
            if j >= chars.len() {
                assert(decode_all(chars@, i as int) =~= Seq::<Option<NotificationView>>::empty());
                assert(results_view(out@) + Seq::<Option<NotificationView>>::empty()
                    =~= results_view(out@));
                return out;
            }
            if chars[j] != '{' {
                out.push(Err(Error::JsonDecode));
                assert(results_view(out@) =~= results_view(prev).push(None));
                assert(results_view(out@) + Seq::<Option<NotificationView>>::empty()
                    =~= decode_all(input@, 0));
                return out;
            }
            match parse_notification_exec(&chars, j) {
                Some((n, k)) => {
                    out.push(Ok(n));
                    assert(results_view(out@) =~= results_view(prev).push(Some(n@)));
                    assert(results_view(prev).push(Some(n@)) + decode_all(chars@, k as int)
                        =~= results_view(prev) + (seq![Some(n@)] + decode_all(chars@, k as int)));
                    i = k;
                },
                None => {
                    match scan_object_exec(&chars, j + 1) {
                        Some(k) => {
                            out.push(Err(Error::JsonDecode));
                            assert(results_view(out@) =~= results_view(prev).push(None));
                            assert(results_view(prev).push(None) + decode_all(chars@, k as int)
                                =~= results_view(prev) + (seq![Option::<NotificationView>::None]
                                + decode_all(chars@, k as int)));
                            i = k;
                        },
                        None => {
                            out.push(Err(Error::JsonDecode));
                            assert(results_view(out@) =~= results_view(prev).push(None));
                            assert(results_view(out@) + Seq::<Option<NotificationView>>::empty()
                                =~= decode_all(input@, 0));
                            return out;
                        },
                    }
                },
            }
        }
    }
}

} // verus!
