//! Decoder for the inbound wire protocol: one JSON object per line, with a
//! `type` discriminator field. The grammar is stated as spec functions over
//! character sequences; the executable parser is proved to return exactly
//! what the grammar says.
//!
//! A line decodes to a message, or to nothing (a malformed line is dropped,
//! never fatal). An object whose `type` tag is well-formed but unrecognized
//! decodes to [`BackendMessage::Unknown`], the forward-compatible catch-all.
use vstd::prelude::*;
use crate::model::{BackendMessage, Entry, EntryKind, EntryV, MessageV};
use crate::text::{chars_eq_str, chars_to_string, to_chars};

verus! {

// ---------------------------------------------------------------------------
// Character classes
// ---------------------------------------------------------------------------
/// JSON inter-token whitespace.
pub open spec fn is_ws_char(c: char) -> bool {
    c == ' ' || c == '\t' || c == '\n' || c == '\r'
}

/// A decimal digit.
pub open spec fn is_digit(c: char) -> bool {
    48 <= c as u32 && c as u32 <= 57
}

/// The value of a decimal digit.
pub open spec fn digit_val(c: char) -> int {
    c as u32 - 48
}

/// A hexadecimal digit.
pub open spec fn is_hex(c: char) -> bool {
    is_digit(c) || (97 <= c as u32 && c as u32 <= 102) || (65 <= c as u32 && c as u32 <= 70)
}

/// The value of a hexadecimal digit.
pub open spec fn hex_val(c: char) -> int {
    if is_digit(c) {
        digit_val(c)
    } else if 97 <= c as u32 {
        c as u32 - 87
    } else {
        c as u32 - 55
    }
}

/// The value of the four hexadecimal digits at `i`.
pub open spec fn hex4(s: Seq<char>, i: int) -> int
    recommends
        0 <= i,
        i + 4 <= s.len(),
{
    hex_val(s[i]) * 4096 + hex_val(s[i + 1]) * 256 + hex_val(s[i + 2]) * 16 + hex_val(s[i + 3])
}

// ---------------------------------------------------------------------------
// Whitespace and literal words
// ---------------------------------------------------------------------------
/// The first index at or after `i` that does not hold whitespace.
pub open spec fn sp_ws(s: Seq<char>, i: int) -> int
    decreases s.len() - i,
{
    if 0 <= i && i < s.len() && is_ws_char(s[i]) {
        sp_ws(s, i + 1)
    } else {
        i
    }
}

/// The word `w` stands at `i`; the index after it.
pub open spec fn sp_lit(s: Seq<char>, i: int, w: Seq<char>) -> Option<int> {
    if 0 <= i && i + w.len() <= s.len() && s.subrange(i, i + w.len()) == w {
        Some(i + w.len())
    } else {
        None
    }
}

// ---------------------------------------------------------------------------
// Numbers
// ---------------------------------------------------------------------------
/// The first index at or after `i` that does not hold a digit.
pub open spec fn sp_digits_end(s: Seq<char>, i: int) -> int
    decreases s.len() - i,
{
    if 0 <= i && i < s.len() && is_digit(s[i]) {
        sp_digits_end(s, i + 1)
    } else {
        i
    }
}

/// Accumulates decimal digits onto `acc`, bounded by `u64::MAX`; the value
/// and the index after the last digit.
pub open spec fn sp_acc(s: Seq<char>, i: int, acc: int) -> Option<(int, int)>
    decreases s.len() - i,
{
    if 0 <= i && i < s.len() && is_digit(s[i]) {
        let v = acc * 10 + digit_val(s[i]);
        if v > u64::MAX as int {
            None
        } else {
            sp_acc(s, i + 1, v)
        }
    } else {
        Some((acc, i))
    }
}

/// An unsigned JSON integer (`0`, or a nonzero digit followed by digits)
/// whose value fits in a `u64`.
pub open spec fn sp_u64v(s: Seq<char>, i: int) -> Option<(int, int)> {
    if !(0 <= i && i < s.len() && is_digit(s[i])) {
        None
    } else if s[i] == '0' {
        Some((0, i + 1))
    } else {
        sp_acc(s, i, 0)
    }
}

/// An unsigned JSON integer that fits in a `usize`.
pub open spec fn sp_usizev(s: Seq<char>, i: int) -> Option<(int, int)> {
    match sp_u64v(s, i) {
        Some((v, k)) => if v <= usize::MAX as int {
            Some((v, k))
        } else {
            None
        },
        None => None,
    }
}

/// A JSON integer, optionally negative, that fits in an `i64`.
pub open spec fn sp_i64v(s: Seq<char>, i: int) -> Option<(int, int)> {
    if 0 <= i && i < s.len() && s[i] == '-' {
        match sp_u64v(s, i + 1) {
            Some((v, k)) => if v <= i64::MAX as int + 1 {
                Some((-v, k))
            } else {
                None
            },
            None => None,
        }
    } else {
        match sp_u64v(s, i) {
            Some((v, k)) => if v <= i64::MAX as int {
                Some((v, k))
            } else {
                None
            },
            None => None,
        }
    }
}

/// Skips over any JSON number (integer, fraction, exponent); the index
/// after it. Used for values the protocol ignores.
pub open spec fn sp_num_end(s: Seq<char>, i: int) -> Option<int> {
    if !(0 <= i && i < s.len()) {
        None
    } else {
        let i1 = if s[i] == '-' {
            i + 1
        } else {
            i
        };
        if !(i1 < s.len() && is_digit(s[i1])) {
            None
        } else {
            let i2 = if s[i1] == '0' {
                i1 + 1
            } else {
                sp_digits_end(s, i1)
            };
            let i3o = if i2 < s.len() && s[i2] == '.' {
                if i2 + 1 < s.len() && is_digit(s[i2 + 1]) {
                    Some(sp_digits_end(s, i2 + 1))
                } else {
                    None
                }
            } else {
                Some(i2)
            };
            match i3o {
                None => None,
                Some(i3) => if i3 < s.len() && (s[i3] == 'e' || s[i3] == 'E') {
                    let ie = if i3 + 1 < s.len() && (s[i3 + 1] == '+' || s[i3 + 1] == '-') {
                        i3 + 2
                    } else {
                        i3 + 1
                    };
                    if ie < s.len() && is_digit(s[ie]) {
                        Some(sp_digits_end(s, ie))
                    } else {
                        None
                    }
                } else {
                    Some(i3)
                },
            }
        }
    }
}

// ---------------------------------------------------------------------------
// Strings
// ---------------------------------------------------------------------------
/// The remainder of a JSON string body starting at `i` (after the opening
/// quote), accumulated onto `acc`: the decoded characters and the index
/// after the closing quote. Handles the standard escapes, including
/// `\uXXXX` with surrogate pairs; unescaped control characters are
/// rejected, as is a lone surrogate.
pub open spec fn sp_str_rest(s: Seq<char>, i: int, acc: Seq<char>) -> Option<(Seq<char>, int)>
    decreases s.len() - i,
{
    if !(0 <= i && i < s.len()) {
        None
    } else {
        let c = s[i];
        if c == '"' {
            Some((acc, i + 1))
        } else if c == '\\' {
            if !(i + 1 < s.len()) {
                None
            } else {
                let e = s[i + 1];
                if e == '"' || e == '\\' || e == '/' {
                    sp_str_rest(s, i + 2, acc.push(e))
                } else if e == 'b' {
                    sp_str_rest(s, i + 2, acc.push('\u{8}'))
                } else if e == 'f' {
                    sp_str_rest(s, i + 2, acc.push('\u{c}'))
                } else if e == 'n' {
                    sp_str_rest(s, i + 2, acc.push('\n'))
                } else if e == 'r' {
                    sp_str_rest(s, i + 2, acc.push('\r'))
                } else if e == 't' {
                    sp_str_rest(s, i + 2, acc.push('\t'))
                } else if e == 'u' {
                    if !(i + 5 < s.len() && is_hex(s[i + 2]) && is_hex(s[i + 3]) && is_hex(s[i + 4])
                        && is_hex(s[i + 5])) {
                        None
                    } else {
                        let code = hex4(s, i + 2);
                        if 0xD800 <= code && code < 0xDC00 {
                            if !(i + 11 < s.len() && s[i + 6] == '\\' && s[i + 7] == 'u' && is_hex(
                                s[i + 8],
                            ) && is_hex(s[i + 9]) && is_hex(s[i + 10]) && is_hex(s[i + 11])) {
                                None
                            } else {
                                let lo = hex4(s, i + 8);
                                if 0xDC00 <= lo && lo < 0xE000 {
                                    let scalar = 0x10000 + (code - 0xD800) * 0x400 + (lo - 0xDC00);
                                    sp_str_rest(s, i + 12, acc.push(scalar as char))
                                } else {
                                    None
                                }
                            }
                        } else if 0xDC00 <= code && code < 0xE000 {
                            None
                        } else {
                            sp_str_rest(s, i + 6, acc.push(code as char))
                        }
                    }
                } else {
                    None
                }
            }
        } else if (c as u32) < 0x20 {
            None
        } else {
            sp_str_rest(s, i + 1, acc.push(c))
        }
    }
}

/// A whole JSON string at `i`: its decoded characters and the index after
/// the closing quote.
pub open spec fn sp_string(s: Seq<char>, i: int) -> Option<(Seq<char>, int)> {
    if 0 <= i && i < s.len() && s[i] == '"' {
        sp_str_rest(s, i + 1, Seq::empty())
    } else {
        None
    }
}

/// A JSON boolean at `i`.
pub open spec fn sp_boolv(s: Seq<char>, i: int) -> Option<(bool, int)> {
    match sp_lit(s, i, "true"@) {
        Some(k) => Some((true, k)),
        None => match sp_lit(s, i, "false"@) {
            Some(k) => Some((false, k)),
            None => None,
        },
    }
}

// ---------------------------------------------------------------------------
// Skipping arbitrary values (forward compatibility)
// ---------------------------------------------------------------------------
/// Skips over any JSON value at `i`; the index after it.
pub open spec fn sp_value(s: Seq<char>, i: int) -> Option<int>
    decreases s.len() - i, 2int,
{
    if !(0 <= i && i < s.len()) {
        None
    } else {
        let c = s[i];
        if c == '"' {
            match sp_string(s, i) {
                Some((_v, k)) => Some(k),
                None => None,
            }
        } else if c == '{' {
            sp_members(s, i + 1, true)
        } else if c == '[' {
            sp_items(s, i + 1, true)
        } else if c == 't' {
            sp_lit(s, i, "true"@)
        } else if c == 'f' {
            sp_lit(s, i, "false"@)
        } else if c == 'n' {
            sp_lit(s, i, "null"@)
        } else if c == '-' || is_digit(c) {
            sp_num_end(s, i)
        } else {
            None
        }
    }
}

/// Skips the items of a JSON array (after the opening bracket); the index
/// after the closing bracket.
pub open spec fn sp_items(s: Seq<char>, i: int, first: bool) -> Option<int>
    decreases s.len() - i, 3int,
{
    let j = sp_ws(s, i);
    if !(i <= j && j < s.len()) {
        None
    } else if s[j] == ']' {
        if first {
            Some(j + 1)
        } else {
            None
        }
    } else {
        match sp_value(s, j) {
            None => None,
            Some(k) => if !(j < k && k <= s.len()) {
                None
            } else {
                let p = sp_ws(s, k);
                if !(k <= p && p < s.len()) {
                    None
                } else if s[p] == ',' {
                    sp_items(s, p + 1, false)
                } else if s[p] == ']' {
                    Some(p + 1)
                } else {
                    None
                }
            },
        }
    }
}

/// Skips the members of a JSON object (after the opening brace); the index
/// after the closing brace.
pub open spec fn sp_members(s: Seq<char>, i: int, first: bool) -> Option<int>
    decreases s.len() - i, 3int,
{
    let j = sp_ws(s, i);
    if !(i <= j && j < s.len()) {
        None
    } else if s[j] == '}' {
        if first {
            Some(j + 1)
        } else {
            None
        }
    } else if s[j] == '"' {
        match sp_string(s, j) {
            None => None,
            Some((_key, k)) => if !(j < k && k <= s.len()) {
                None
            } else {
                let m = sp_ws(s, k);
                if !(k <= m && m < s.len() && s[m] == ':') {
                    None
                } else {
                    let n = sp_ws(s, m + 1);
                    if !(m < n && n <= s.len()) {
                        None
                    } else {
                        match sp_value(s, n) {
                            None => None,
                            Some(ve) => if !(n < ve && ve <= s.len()) {
                                None
                            } else {
                                let p = sp_ws(s, ve);
                                if !(ve <= p && p < s.len()) {
                                    None
                                } else if s[p] == ',' {
                                    sp_members(s, p + 1, false)
                                } else if s[p] == '}' {
                                    Some(p + 1)
                                } else {
                                    None
                                }
                            },
                        }
                    }
                }
            },
        }
    } else {
        None
    }
}

// ---------------------------------------------------------------------------
// Typed entries
// ---------------------------------------------------------------------------
/// Finishes an entry object at `end`: the required fields must all have
/// been seen; the optional ones default.
pub open spec fn sp_entry_fin(
    id: Option<int>,
    content: Option<Seq<char>>,
    ts: Option<int>,
    kind: Option<EntryKind>,
    cur: Option<bool>,
    end: int,
) -> Option<(EntryV, int)> {
    match (id, content, ts) {
        (Some(idv), Some(cv), Some(tv)) => Some(
            (
                EntryV {
                    id: idv,
                    content: cv,
                    timestamp: tv,
                    kind: match kind {
                        Some(k) => k,
                        None => EntryKind::Text,
                    },
                    is_current: match cur {
                        Some(b) => b,
                        None => false,
                    },
                },
                end,
            ),
        ),
        _ => None,
    }
}

/// The entry kind named by a wire string.
pub open spec fn sp_kind_of(w: Seq<char>) -> Option<EntryKind> {
    if w == "text"@ {
        Some(EntryKind::Text)
    } else if w == "image"@ {
        Some(EntryKind::Image)
    } else if w == "file"@ {
        Some(EntryKind::File)
    } else {
        None
    }
}

/// The members of one entry object (after the opening brace). Recognized
/// keys are parsed strictly, each at most once; unrecognized keys are
/// skipped. `id`, `content` and `timestamp` are required; `type` defaults
/// to text and `isCurrent` to false.
pub open spec fn sp_entry_members(
    s: Seq<char>,
    i: int,
    first: bool,
    id: Option<int>,
    content: Option<Seq<char>>,
    ts: Option<int>,
    kind: Option<EntryKind>,
    cur: Option<bool>,
) -> Option<(EntryV, int)>
    decreases s.len() - i,
{
    let j = sp_ws(s, i);
    if !(i <= j && j < s.len()) {
        None
    } else if s[j] == '}' {
        if first {
            sp_entry_fin(id, content, ts, kind, cur, j + 1)
        } else {
            None
        }
    } else if s[j] == '"' {
        match sp_string(s, j) {
            None => None,
            Some((key, k)) => if !(j < k && k <= s.len()) {
                None
            } else {
                let m = sp_ws(s, k);
                if !(k <= m && m < s.len() && s[m] == ':') {
                    None
                } else {
                    let n = sp_ws(s, m + 1);
                    if !(m < n && n <= s.len()) {
                        None
                    } else {
                        let step: Option<
                            (
                                (
                                    Option<int>,
                                    Option<Seq<char>>,
                                    Option<int>,
                                    Option<EntryKind>,
                                    Option<bool>,
                                ),
                                int,
                            ),
                        > = if key == "id"@ {
                            if id is Some {
                                None
                            } else {
                                match sp_usizev(s, n) {
                                    Some((v, ve)) => Some(
                                        ((Some(v), content, ts, kind, cur), ve),
                                    ),
                                    None => None,
                                }
                            }
                        } else if key == "content"@ {
                            if content is Some {
                                None
                            } else {
                                match sp_string(s, n) {
                                    Some((w, ve)) => Some(((id, Some(w), ts, kind, cur), ve)),
                                    None => None,
                                }
                            }
                        } else if key == "timestamp"@ {
                            if ts is Some {
                                None
                            } else {
                                match sp_i64v(s, n) {
                                    Some((v, ve)) => Some(((id, content, Some(v), kind, cur), ve)),
                                    None => None,
                                }
                            }
                        } else if key == "type"@ {
                            if kind is Some {
                                None
                            } else {
                                match sp_string(s, n) {
                                    Some((w, ve)) => match sp_kind_of(w) {
                                        Some(kd) => Some(((id, content, ts, Some(kd), cur), ve)),
                                        None => None,
                                    },
                                    None => None,
                                }
                            }
                        } else if key == "isCurrent"@ {
                            if cur is Some {
                                None
                            } else {
                                match sp_boolv(s, n) {
                                    Some((b, ve)) => Some(((id, content, ts, kind, Some(b)), ve)),
                                    None => None,
                                }
                            }
                        } else {
                            match sp_value(s, n) {
                                Some(ve) => Some(((id, content, ts, kind, cur), ve)),
                                None => None,
                            }
                        };
                        match step {
                            None => None,
                            Some((f2, ve)) => if !(n < ve && ve <= s.len()) {
                                None
                            } else {
                                let p = sp_ws(s, ve);
                                if !(ve <= p && p < s.len()) {
                                    None
                                } else if s[p] == ',' {
                                    sp_entry_members(
                                        s,
                                        p + 1,
                                        false,
                                        f2.0,
                                        f2.1,
                                        f2.2,
                                        f2.3,
                                        f2.4,
                                    )
                                } else if s[p] == '}' {
                                    sp_entry_fin(f2.0, f2.1, f2.2, f2.3, f2.4, p + 1)
                                } else {
                                    None
                                }
                            },
                        }
                    }
                }
            },
        }
    } else {
        None
    }
}

/// One entry object at `i`.
pub open spec fn sp_entry(s: Seq<char>, i: int) -> Option<(EntryV, int)> {
    if 0 <= i && i < s.len() && s[i] == '{' {
        sp_entry_members(s, i + 1, true, None, None, None, None, None)
    } else {
        None
    }
}

/// The items of the `data` array (after the opening bracket): every element
/// must be a well-formed entry object.
pub open spec fn sp_entry_items(s: Seq<char>, i: int, first: bool, acc: Seq<EntryV>) -> Option<
    (Seq<EntryV>, int),
>
    decreases s.len() - i,
{
    let j = sp_ws(s, i);
    if !(i <= j && j < s.len()) {
        None
    } else if s[j] == ']' {
        if first {
            Some((acc, j + 1))
        } else {
            None
        }
    } else {
        match sp_entry(s, j) {
            None => None,
            Some((e, k)) => if !(j < k && k <= s.len()) {
                None
            } else {
                let p = sp_ws(s, k);
                if !(k <= p && p < s.len()) {
                    None
                } else if s[p] == ',' {
                    sp_entry_items(s, p + 1, false, acc.push(e))
                } else if s[p] == ']' {
                    Some((acc.push(e), p + 1))
                } else {
                    None
                }
            },
        }
    }
}

/// A whole entries array at `i`.
pub open spec fn sp_entry_array(s: Seq<char>, i: int) -> Option<(Seq<EntryV>, int)> {
    if 0 <= i && i < s.len() && s[i] == '[' {
        sp_entry_items(s, i + 1, true, Seq::empty())
    } else {
        None
    }
}

// ---------------------------------------------------------------------------
// The top-level message object
// ---------------------------------------------------------------------------
/// What one walk of the top-level object's members collects: the `type` tag
/// and the possible payload fields. For each payload key the walker records
/// whether it was seen, whether it was seen more than once, and its typed
/// value if it had the variant's expected shape. An ill-shaped payload
/// value is skipped here; whether that is fatal depends on the tag and is
/// decided by [`sp_dispatch`].
pub struct FieldsV {
    pub tag: Option<Seq<char>>,
    pub data: Option<Seq<EntryV>>,
    pub data_seen: bool,
    pub data_dup: bool,
    pub index: Option<int>,
    pub index_seen: bool,
    pub index_dup: bool,
    pub message: Option<Seq<char>>,
    pub message_seen: bool,
    pub message_dup: bool,
}

/// The starting field record: nothing seen yet.
pub open spec fn sp_fields_empty() -> FieldsV {
    FieldsV {
        tag: None,
        data: None,
        data_seen: false,
        data_dup: false,
        index: None,
        index_seen: false,
        index_dup: false,
        message: None,
        message_seen: false,
        message_dup: false,
    }
}

/// The members of the top-level object (after the opening brace). The
/// `type` tag must be a string and appear at most once; payload keys are
/// collected as described at [`FieldsV`]; everything else is skipped.
pub open spec fn sp_top_members(s: Seq<char>, i: int, first: bool, f: FieldsV) -> Option<
    (FieldsV, int),
>
    decreases s.len() - i,
{
    let j = sp_ws(s, i);
    if !(i <= j && j < s.len()) {
        None
    } else if s[j] == '}' {
        if first {
            Some((f, j + 1))
        } else {
            None
        }
    } else if s[j] == '"' {
        match sp_string(s, j) {
            None => None,
            Some((key, k)) => if !(j < k && k <= s.len()) {
                None
            } else {
                let m = sp_ws(s, k);
                if !(k <= m && m < s.len() && s[m] == ':') {
                    None
                } else {
                    let n = sp_ws(s, m + 1);
                    if !(m < n && n <= s.len()) {
                        None
                    } else {
                        let step: Option<(FieldsV, int)> = if key == "type"@ {
                            if f.tag is Some {
                                None
                            } else {
                                match sp_string(s, n) {
                                    Some((w, ve)) => Some((FieldsV { tag: Some(w), ..f }, ve)),
                                    None => None,
                                }
                            }
                        } else if key == "data"@ {
                            match sp_value(s, n) {
                                None => None,
                                Some(ve) => {
                                    let dv = match sp_entry_array(s, n) {
                                        Some((d, de)) => if de == ve && !f.data_seen {
                                            Some(d)
                                        } else {
                                            f.data
                                        },
                                        None => f.data,
                                    };
                                    Some(
                                        (
                                            FieldsV {
                                                data: dv,
                                                data_seen: true,
                                                data_dup: f.data_seen,
                                                ..f
                                            },
                                            ve,
                                        ),
                                    )
                                },
                            }
                        } else if key == "index"@ {
                            match sp_value(s, n) {
                                None => None,
                                Some(ve) => {
                                    let iv = match sp_usizev(s, n) {
                                        Some((v, de)) => if de == ve && !f.index_seen {
                                            Some(v)
                                        } else {
                                            f.index
                                        },
                                        None => f.index,
                                    };
                                    Some(
                                        (
                                            FieldsV {
                                                index: iv,
                                                index_seen: true,
                                                index_dup: f.index_seen,
                                                ..f
                                            },
                                            ve,
                                        ),
                                    )
                                },
                            }
                        } else if key == "message"@ {
                            match sp_value(s, n) {
                                None => None,
                                Some(ve) => {
                                    let mv = match sp_string(s, n) {
                                        Some((w, de)) => if de == ve && !f.message_seen {
                                            Some(w)
                                        } else {
                                            f.message
                                        },
                                        None => f.message,
                                    };
                                    Some(
                                        (
                                            FieldsV {
                                                message: mv,
                                                message_seen: true,
                                                message_dup: f.message_seen,
                                                ..f
                                            },
                                            ve,
                                        ),
                                    )
                                },
                            }
                        } else {
                            match sp_value(s, n) {
                                Some(ve) => Some((f, ve)),
                                None => None,
                            }
                        };
                        match step {
                            None => None,
                            Some((f2, ve)) => if !(n < ve && ve <= s.len()) {
                                None
                            } else {
                                let p = sp_ws(s, ve);
                                if !(ve <= p && p < s.len()) {
                                    None
                                } else if s[p] == ',' {
                                    sp_top_members(s, p + 1, false, f2)
                                } else if s[p] == '}' {
                                    Some((f2, p + 1))
                                } else {
                                    None
                                }
                            },
                        }
                    }
                }
            },
        }
    } else {
        None
    }
}

/// The message named by a collected field record: the tag picks the
/// variant, and the variant's payload field must have been seen exactly
/// once with the expected shape. An unrecognized tag is the catch-all.
pub open spec fn sp_dispatch(f: FieldsV) -> Option<MessageV> {
    match f.tag {
        None => None,
        Some(tag) => if tag == "entries"@ {
            if f.data_seen && !f.data_dup {
                match f.data {
                    Some(d) => Some(MessageV::Entries(d)),
                    None => None,
                }
            } else {
                None
            }
        } else if tag == "select-success"@ {
            if f.index_seen && !f.index_dup {
                match f.index {
                    Some(v) => Some(MessageV::SelectSuccess(v)),
                    None => None,
                }
            } else {
                None
            }
        } else if tag == "remove-success"@ {
            if f.index_seen && !f.index_dup {
                match f.index {
                    Some(v) => Some(MessageV::RemoveSuccess(v)),
                    None => None,
                }
            } else {
                None
            }
        } else if tag == "success"@ {
            if f.message_seen && !f.message_dup {
                match f.message {
                    Some(w) => Some(MessageV::Success(w)),
                    None => None,
                }
            } else {
                None
            }
        } else if tag == "ready"@ {
            Some(MessageV::Ready)
        } else {
            Some(MessageV::Unknown)
        },
    }
}

/// What one protocol line decodes to: a message, or nothing for a line
/// that is not a single well-formed JSON object of the protocol's shape.
pub open spec fn sp_decode(s: Seq<char>) -> Option<MessageV> {
    let i = sp_ws(s, 0);
    if 0 <= i && i < s.len() && s[i] == '{' {
        match sp_top_members(s, i + 1, true, sp_fields_empty()) {
            None => None,
            Some((f, j)) => if 0 <= j && sp_ws(s, j) == s.len() {
                sp_dispatch(f)
            } else {
                None
            },
        }
    } else {
        None
    }
}

// ---------------------------------------------------------------------------
// Correspondence views between executable and spec results
// ---------------------------------------------------------------------------
pub open spec fn o_end(r: Option<usize>) -> Option<int> {
    match r {
        Some(k) => Some(k as int),
        None => None,
    }
}

pub open spec fn o_chars(r: Option<(Vec<char>, usize)>) -> Option<(Seq<char>, int)> {
    match r {
        Some((v, k)) => Some((v@, k as int)),
        None => None,
    }
}

pub open spec fn o_u64(r: Option<(u64, usize)>) -> Option<(int, int)> {
    match r {
        Some((v, k)) => Some((v as int, k as int)),
        None => None,
    }
}

pub open spec fn o_usize(r: Option<(usize, usize)>) -> Option<(int, int)> {
    match r {
        Some((v, k)) => Some((v as int, k as int)),
        None => None,
    }
}

pub open spec fn o_i64(r: Option<(i64, usize)>) -> Option<(int, int)> {
    match r {
        Some((v, k)) => Some((v as int, k as int)),
        None => None,
    }
}

pub open spec fn o_bool(r: Option<(bool, usize)>) -> Option<(bool, int)> {
    match r {
        Some((v, k)) => Some((v, k as int)),
        None => None,
    }
}

pub open spec fn ov_i(x: Option<usize>) -> Option<int> {
    match x {
        Some(v) => Some(v as int),
        None => None,
    }
}

pub open spec fn ov_c(x: Option<Vec<char>>) -> Option<Seq<char>> {
    match x {
        Some(v) => Some(v@),
        None => None,
    }
}

pub open spec fn ov_t(x: Option<i64>) -> Option<int> {
    match x {
        Some(v) => Some(v as int),
        None => None,
    }
}

pub open spec fn o_entry(r: Option<(Entry, usize)>) -> Option<(EntryV, int)> {
    match r {
        Some((e, k)) => Some((e@, k as int)),
        None => None,
    }
}

pub open spec fn o_entries(r: Option<(Vec<Entry>, usize)>) -> Option<(Seq<EntryV>, int)> {
    match r {
        Some((v, k)) => Some((v@.map_values(|e: Entry| e@), k as int)),
        None => None,
    }
}

// ---------------------------------------------------------------------------
// Executable character helpers
// ---------------------------------------------------------------------------
fn c_is_ws(c: char) -> (r: bool)
    ensures
        r == is_ws_char(c),
{
    c == ' ' || c == '\t' || c == '\n' || c == '\r'
}

fn c_is_digit(c: char) -> (r: bool)
    ensures
        r == is_digit(c),
{
    let u = c as u32;
    48 <= u && u <= 57
}

fn digit_of(c: char) -> (d: u64)
    requires
        is_digit(c),
    ensures
        d == digit_val(c),
        d <= 9,
{
    (c as u32 - 48) as u64
}

fn c_is_hex(c: char) -> (r: bool)
    ensures
        r == is_hex(c),
{
    let u = c as u32;
    (48 <= u && u <= 57) || (97 <= u && u <= 102) || (65 <= u && u <= 70)
}

fn hex_of(c: char) -> (d: u32)
    requires
        is_hex(c),
    ensures
        d == hex_val(c),
        d <= 15,
{
    let u = c as u32;
    if 48 <= u && u <= 57 {
        u - 48
    } else if 97 <= u {
        u - 87
    } else {
        u - 55
    }
}

/// Relies on `core::char::from_u32`: for a Unicode scalar value it returns
/// the character with exactly that code.
#[verifier::external_body]
fn char_from_code(code: u32) -> (r: char)
    requires
        code < 0xD800 || (0xE000 <= code && code < 0x110000),
    ensures
        r == code as char,
{
    char::from_u32(code).unwrap_or(' ')
}

// ---------------------------------------------------------------------------
// Executable scalar parsers
// ---------------------------------------------------------------------------
fn p_ws(s: &Vec<char>, i: usize) -> (r: usize)
    requires
        i <= s.len(),
    ensures
        r as int == sp_ws(s@, i as int),
        i <= r <= s.len(),
{
    let mut j = i;
    while j < s.len() && c_is_ws(s[j])
        invariant
            i <= j <= s.len(),
            sp_ws(s@, i as int) == sp_ws(s@, j as int),
        decreases s.len() - j,
    {
        j += 1;
    }
    j
}

fn p_lit(s: &Vec<char>, i: usize, w: &Vec<char>) -> (r: Option<usize>)
    requires
        i <= s.len(),
    ensures
        o_end(r) == sp_lit(s@, i as int, w@),
        r matches Some(k) ==> i <= k <= s.len() && k == i + w@.len(),
{
    if w.len() > s.len() - i {
        return None;
    }
    let mut j: usize = 0;
    while j < w.len()
        invariant
            i + w.len() <= s.len(),
            j <= w.len(),
            forall|q: int| 0 <= q < j ==> s@[i + q] == w@[q],
        decreases w.len() - j,
    {
        if s[i + j] != w[j] {
            proof {
                if sp_lit(s@, i as int, w@) is Some {
                    assert(s@.subrange(i as int, i + w@.len())[j as int] == s@[i + j]);
                }
            }
            return None;
        }
        j += 1;
    }
    proof {
        assert(s@.subrange(i as int, i + w@.len()) =~= w@);
    }
    Some(i + w.len())
}

fn p_digits_end(s: &Vec<char>, i: usize) -> (r: usize)
    requires
        i <= s.len(),
    ensures
        r as int == sp_digits_end(s@, i as int),
        i <= r <= s.len(),
        r == i ==> !(i < s.len() && is_digit(s@[i as int])),
{
    let mut j = i;
    while j < s.len() && c_is_digit(s[j])
        invariant
            i <= j <= s.len(),
            sp_digits_end(s@, i as int) == sp_digits_end(s@, j as int),
            j == i || j > i,
        decreases s.len() - j,
    {
        j += 1;
    }
    j
}

fn p_acc(s: &Vec<char>, i: usize, acc0: u64) -> (r: Option<(u64, usize)>)
    requires
        i <= s.len(),
    ensures
        o_u64(r) == sp_acc(s@, i as int, acc0 as int),
        r matches Some((v, k)) ==> i <= k <= s.len() && (k == i ==> !(i < s.len() && is_digit(
            s@[i as int],
        ))),
{
    let mut j = i;
    let mut acc = acc0;
    loop
        invariant
            i <= j <= s.len(),
            sp_acc(s@, i as int, acc0 as int) == sp_acc(s@, j as int, acc as int),
            j == i ==> acc == acc0,
        decreases s.len() - j,
    {
        if j < s.len() && c_is_digit(s[j]) {
            let d = digit_of(s[j]);
            if acc > 1844674407370955161u64 || (acc == 1844674407370955161u64 && d > 5) {
                proof {
                    assert(acc as int * 10 + d as int > u64::MAX as int);
                }
                return None;
            }
            acc = acc * 10 + d;
            j += 1;
        } else {
            return Some((acc, j));
        }
    }
}

fn p_u64v(s: &Vec<char>, i: usize) -> (r: Option<(u64, usize)>)
    requires
        i <= s.len(),
    ensures
        o_u64(r) == sp_u64v(s@, i as int),
        r matches Some((v, k)) ==> i < k <= s.len(),
{
    if i < s.len() && c_is_digit(s[i]) {
        if s[i] == '0' {
            Some((0, i + 1))
        } else {
            p_acc(s, i, 0)
        }
    } else {
        None
    }
}

fn p_usizev(s: &Vec<char>, i: usize) -> (r: Option<(usize, usize)>)
    requires
        i <= s.len(),
    ensures
        o_usize(r) == sp_usizev(s@, i as int),
        r matches Some((v, k)) ==> i < k <= s.len(),
{
    match p_u64v(s, i) {
        Some((v, k)) => if v <= usize::MAX as u64 {
            Some((v as usize, k))
        } else {
            None
        },
        None => None,
    }
}

fn p_i64v(s: &Vec<char>, i: usize) -> (r: Option<(i64, usize)>)
    requires
        i <= s.len(),
    ensures
        o_i64(r) == sp_i64v(s@, i as int),
        r matches Some((v, k)) ==> i < k <= s.len(),
{
    if i < s.len() && s[i] == '-' {
        match p_u64v(s, i + 1) {
            Some((v, k)) => if v <= i64::MAX as u64 {
                Some((-(v as i64), k))
            } else if v == i64::MAX as u64 + 1 {
                Some((i64::MIN, k))
            } else {
                None
            },
            None => None,
        }
    } else {
        match p_u64v(s, i) {
            Some((v, k)) => if v <= i64::MAX as u64 {
                Some((v as i64, k))
            } else {
                None
            },
            None => None,
        }
    }
}

fn p_num_end(s: &Vec<char>, i: usize) -> (r: Option<usize>)
    requires
        i <= s.len(),
    ensures
        o_end(r) == sp_num_end(s@, i as int),
        r matches Some(k) ==> i < k <= s.len(),
{
    if !(i < s.len()) {
        return None;
    }
    let i1 = if s[i] == '-' {
        i + 1
    } else {
        i
    };
    if !(i1 < s.len() && c_is_digit(s[i1])) {
        return None;
    }
    let i2 = if s[i1] == '0' {
        i1 + 1
    } else {
        p_digits_end(s, i1)
    };
    let i3 = if i2 < s.len() && s[i2] == '.' {
        if i2 + 1 < s.len() && c_is_digit(s[i2 + 1]) {
            p_digits_end(s, i2 + 1)
        } else {
            return None;
        }
    } else {
        i2
    };
    let i4 = if i3 < s.len() && (s[i3] == 'e' || s[i3] == 'E') {
        let ie = if i3 + 1 < s.len() && (s[i3 + 1] == '+' || s[i3 + 1] == '-') {
            i3 + 2
        } else {
            i3 + 1
        };
        if ie < s.len() && c_is_digit(s[ie]) {
            p_digits_end(s, ie)
        } else {
            return None;
        }
    } else {
        i3
    };
    Some(i4)
}

#[verifier::rlimit(100)]
fn p_string(s: &Vec<char>, i: usize) -> (r: Option<(Vec<char>, usize)>)
    requires
        i <= s.len(),
    ensures
        o_chars(r) == sp_string(s@, i as int),
        r matches Some((v, k)) ==> i < k <= s.len(),
{
    if !(i < s.len()) {
        return None;
    }
    if s[i] != '"' {
        return None;
    }
    let mut j: usize = i + 1;
    let mut acc: Vec<char> = Vec::new();
    loop
        invariant
            i < s.len(),
            s@[i as int] == '"',
            i + 1 <= j <= s.len(),
            sp_str_rest(s@, (i + 1) as int, Seq::empty()) == sp_str_rest(s@, j as int, acc@),
        decreases s.len() - j,
    {
        if !(j < s.len()) {
            return None;
        }
        let c = s[j];
        if c == '"' {
            proof {
                assert(sp_str_rest(s@, j as int, acc@) == Some((acc@, j + 1 as int)));
            }
            return Some((acc, j + 1));
        }
        if c == '\\' {
            if !(j + 1 < s.len()) {
                return None;
            }
            let e = s[j + 1];
            if e == '"' || e == '\\' || e == '/' {
                acc.push(e);
                j += 2;
            } else if e == 'b' {
                acc.push('\u{8}');
                j += 2;
            } else if e == 'f' {
                acc.push('\u{c}');
                j += 2;
            } else if e == 'n' {
                acc.push('\n');
                j += 2;
            } else if e == 'r' {
                acc.push('\r');
                j += 2;
            } else if e == 't' {
                acc.push('\t');
                j += 2;
            } else if e == 'u' {
                if s.len() - j <= 5 {
                    return None;
                }
                if !(c_is_hex(s[j + 2]) && c_is_hex(s[j + 3]) && c_is_hex(s[j + 4]) && c_is_hex(
                    s[j + 5],
                )) {
                    return None;
                }
                let code: u32 = hex_of(s[j + 2]) * 4096 + hex_of(s[j + 3]) * 256 + hex_of(s[j + 4])
                    * 16 + hex_of(s[j + 5]);
                proof {
                    assert(code as int == hex4(s@, j + 2));
                }
                if 0xD800 <= code && code < 0xDC00 {
                    if s.len() - j <= 11 {
                        return None;
                    }
                    if !(s[j + 6] == '\\' && s[j + 7] == 'u' && c_is_hex(s[j + 8]) && c_is_hex(
                        s[j + 9],
                    ) && c_is_hex(s[j + 10]) && c_is_hex(s[j + 11])) {
                        return None;
                    }
                    let lo: u32 = hex_of(s[j + 8]) * 4096 + hex_of(s[j + 9]) * 256 + hex_of(
                        s[j + 10],
                    ) * 16 + hex_of(s[j + 11]);
                    proof {
                        assert(lo as int == hex4(s@, j + 8));
                    }
                    if !(0xDC00 <= lo && lo < 0xE000) {
                        return None;
                    }
                    let scalar: u32 = 0x10000 + (code - 0xD800) * 0x400 + (lo - 0xDC00);
                    proof {
                        assert(scalar as int == 0x10000 + (hex4(s@, j + 2) - 0xD800) * 0x400 + (
                        hex4(s@, j + 8) - 0xDC00));
                    }
                    acc.push(char_from_code(scalar));
                    j += 12;
                } else if 0xDC00 <= code && code < 0xE000 {
                    return None;
                } else {
                    acc.push(char_from_code(code));
                    j += 6;
                }
            } else {
                return None;
            }
        } else if (c as u32) < 0x20 {
            return None;
        } else {
            acc.push(c);
            j += 1;
        }
    }
}

fn p_boolv(s: &Vec<char>, i: usize) -> (r: Option<(bool, usize)>)
    requires
        i <= s.len(),
    ensures
        o_bool(r) == sp_boolv(s@, i as int),
        r matches Some((b, k)) ==> i < k <= s.len(),
{
    let wt = to_chars("true");
    match p_lit(s, i, &wt) {
        Some(k) => {
            proof {
                reveal_strlit("true");
            }
            Some((true, k))
        },
        None => {
            let wf = to_chars("false");
            match p_lit(s, i, &wf) {
                Some(k) => {
                    proof {
                        reveal_strlit("false");
                    }
                    Some((false, k))
                },
                None => None,
            }
        },
    }
}

// ---------------------------------------------------------------------------
// Executable skip-parsers
// ---------------------------------------------------------------------------
fn p_value(s: &Vec<char>, i: usize) -> (r: Option<usize>)
    requires
        i <= s.len(),
    ensures
        o_end(r) == sp_value(s@, i as int),
        r matches Some(k) ==> i < k <= s.len(),
    decreases s.len() - i, 2int,
{
    if !(i < s.len()) {
        return None;
    }
    let c = s[i];
    if c == '"' {
        match p_string(s, i) {
            Some((_v, k)) => Some(k),
            None => None,
        }
    } else if c == '{' {
        p_members(s, i + 1, true)
    } else if c == '[' {
        p_items(s, i + 1, true)
    } else if c == 't' {
        proof {
            reveal_strlit("true");
        }
        let w = to_chars("true");
        p_lit(s, i, &w)
    } else if c == 'f' {
        proof {
            reveal_strlit("false");
        }
        let w = to_chars("false");
        p_lit(s, i, &w)
    } else if c == 'n' {
        proof {
            reveal_strlit("null");
        }
        let w = to_chars("null");
        p_lit(s, i, &w)
    } else if c == '-' || c_is_digit(c) {
        p_num_end(s, i)
    } else {
        None
    }
}

fn p_items(s: &Vec<char>, i: usize, first0: bool) -> (r: Option<usize>)
    requires
        i <= s.len(),
    ensures
        o_end(r) == sp_items(s@, i as int, first0),
        r matches Some(k) ==> i <= k <= s.len(),
    decreases s.len() - i, 3int,
{
    let mut j = i;
    let mut first = first0;
    loop
        invariant
            i <= j <= s.len(),
            sp_items(s@, i as int, first0) == sp_items(s@, j as int, first),
        decreases s.len() - j,
    {
        let w = p_ws(s, j);
        if !(w < s.len()) {
            return None;
        }
        if s[w] == ']' {
            if first {
                return Some(w + 1);
            } else {
                return None;
            }
        }
        match p_value(s, w) {
            None => {
                return None;
            },
            Some(k) => {
                let p = p_ws(s, k);
                if !(p < s.len()) {
                    return None;
                }
                if s[p] == ',' {
                    j = p + 1;
                    first = false;
                } else if s[p] == ']' {
                    return Some(p + 1);
                } else {
                    return None;
                }
            },
        }
    }
}

fn p_members(s: &Vec<char>, i: usize, first0: bool) -> (r: Option<usize>)
    requires
        i <= s.len(),
    ensures
        o_end(r) == sp_members(s@, i as int, first0),
        r matches Some(k) ==> i <= k <= s.len(),
    decreases s.len() - i, 3int,
{
    let mut j = i;
    let mut first = first0;
    loop
        invariant
            i <= j <= s.len(),
            sp_members(s@, i as int, first0) == sp_members(s@, j as int, first),
        decreases s.len() - j,
    {
        let w = p_ws(s, j);
        if !(w < s.len()) {
            return None;
        }
        if s[w] == '}' {
            if first {
                return Some(w + 1);
            } else {
                return None;
            }
        }
        if s[w] != '"' {
            return None;
        }
        match p_string(s, w) {
            None => {
                return None;
            },
            Some((_key, k)) => {
                let m = p_ws(s, k);
                if !(m < s.len()) {
                    return None;
                }
                if s[m] != ':' {
                    return None;
                }
                let n = p_ws(s, m + 1);
                match p_value(s, n) {
                    None => {
                        return None;
                    },
                    Some(ve) => {
                        let p = p_ws(s, ve);
                        if !(p < s.len()) {
                            return None;
                        }
                        if s[p] == ',' {
                            j = p + 1;
                            first = false;
                        } else if s[p] == '}' {
                            return Some(p + 1);
                        } else {
                            return None;
                        }
                    },
                }
            },
        }
    }
}

// ---------------------------------------------------------------------------
// Executable typed parsers
// ---------------------------------------------------------------------------
fn p_entry_fin(
    id: Option<usize>,
    content: Option<Vec<char>>,
    ts: Option<i64>,
    kind: Option<EntryKind>,
    cur: Option<bool>,
    end: usize,
) -> (r: Option<(Entry, usize)>)
    ensures
        o_entry(r) == sp_entry_fin(ov_i(id), ov_c(content), ov_t(ts), kind, cur, end as int),
        r matches Some((e, k)) ==> k == end,
{
    match (id, content, ts) {
        (Some(idv), Some(cv), Some(tv)) => {
            let e = Entry {
                id: idv,
                content: chars_to_string(&cv),
                timestamp: tv,
                kind: match kind {
                    Some(k) => k,
                    None => EntryKind::Text,
                },
                is_current: match cur {
                    Some(b) => b,
                    None => false,
                },
            };
            Some((e, end))
        },
        _ => None,
    }
}

#[verifier::rlimit(100)]
fn p_entry(s: &Vec<char>, i: usize) -> (r: Option<(Entry, usize)>)
    requires
        i <= s.len(),
    ensures
        o_entry(r) == sp_entry(s@, i as int),
        r matches Some((e, k)) ==> i < k <= s.len(),
{
    if !(i < s.len()) {
        return None;
    }
    if s[i] != '{' {
        return None;
    }
    let mut j: usize = i + 1;
    let mut first: bool = true;
    let mut id: Option<usize> = None;
    let mut content: Option<Vec<char>> = None;
    let mut ts: Option<i64> = None;
    let mut kind: Option<EntryKind> = None;
    let mut cur: Option<bool> = None;
    loop
        invariant
            i < s.len(),
            s@[i as int] == '{',
            i + 1 <= j <= s.len(),
            sp_entry(s@, i as int) == sp_entry_members(
                s@,
                j as int,
                first,
                ov_i(id),
                ov_c(content),
                ov_t(ts),
                kind,
                cur,
            ),
        decreases s.len() - j,
    {
        let w = p_ws(s, j);
        if !(w < s.len()) {
            return None;
        }
        if s[w] == '}' {
            if first {
                return p_entry_fin(id, content, ts, kind, cur, w + 1);
            } else {
                return None;
            }
        }
        if s[w] != '"' {
            return None;
        }
        match p_string(s, w) {
            None => {
                return None;
            },
            Some((key, k)) => {
                let m = p_ws(s, k);
                if !(m < s.len()) {
                    return None;
                }
                if s[m] != ':' {
                    return None;
                }
                let n = p_ws(s, m + 1);
                let mut ve: usize = n;
                if chars_eq_str(&key, "id") {
                    if id.is_some() {
                        return None;
                    }
                    match p_usizev(s, n) {
                        Some((v, e)) => {
                            id = Some(v);
                            ve = e;
                        },
                        None => {
                            return None;
                        },
                    }
                } else if chars_eq_str(&key, "content") {
                    if content.is_some() {
                        return None;
                    }
                    match p_string(s, n) {
                        Some((wv, e)) => {
                            content = Some(wv);
                            ve = e;
                        },
                        None => {
                            return None;
                        },
                    }
                } else if chars_eq_str(&key, "timestamp") {
                    if ts.is_some() {
                        return None;
                    }
                    match p_i64v(s, n) {
                        Some((v, e)) => {
                            ts = Some(v);
                            ve = e;
                        },
                        None => {
                            return None;
                        },
                    }
                } else if chars_eq_str(&key, "type") {
                    if kind.is_some() {
                        return None;
                    }
                    match p_string(s, n) {
                        Some((wv, e)) => {
                            if chars_eq_str(&wv, "text") {
                                kind = Some(EntryKind::Text);
                            } else if chars_eq_str(&wv, "image") {
                                kind = Some(EntryKind::Image);
                            } else if chars_eq_str(&wv, "file") {
                                kind = Some(EntryKind::File);
                            } else {
                                return None;
                            }
                            ve = e;
                        },
                        None => {
                            return None;
                        },
                    }
                } else if chars_eq_str(&key, "isCurrent") {
                    if cur.is_some() {
                        return None;
                    }
                    match p_boolv(s, n) {
                        Some((b, e)) => {
                            cur = Some(b);
                            ve = e;
                        },
                        None => {
                            return None;
                        },
                    }
                } else {
                    match p_value(s, n) {
                        Some(e) => {
                            ve = e;
                        },
                        None => {
                            return None;
                        },
                    }
                }
                let p = p_ws(s, ve);
                if !(p < s.len()) {
                    return None;
                }
                if s[p] == ',' {
                    j = p + 1;
                    first = false;
                } else if s[p] == '}' {
                    return p_entry_fin(id, content, ts, kind, cur, p + 1);
                } else {
                    return None;
                }
            },
        }
    }
}

fn p_entry_items(s: &Vec<char>, i: usize, first0: bool) -> (r: Option<(Vec<Entry>, usize)>)
    requires
        i <= s.len(),
    ensures
        o_entries(r) == sp_entry_items(s@, i as int, first0, Seq::empty()),
        r matches Some((v, k)) ==> i <= k <= s.len(),
{
    let mut j = i;
    let mut first = first0;
    let mut acc: Vec<Entry> = Vec::new();
    proof {
        assert(acc@.map_values(|x: Entry| x@) =~= Seq::<EntryV>::empty());
    }
    loop
        invariant
            i <= j <= s.len(),
            sp_entry_items(s@, i as int, first0, Seq::empty()) == sp_entry_items(
                s@,
                j as int,
                first,
                acc@.map_values(|x: Entry| x@),
            ),
        decreases s.len() - j,
    {
        let w = p_ws(s, j);
        if !(w < s.len()) {
            return None;
        }
        if s[w] == ']' {
            if first {
                return Some((acc, w + 1));
            } else {
                return None;
            }
        }
        match p_entry(s, w) {
            None => {
                return None;
            },
            Some((e, k)) => {
                proof {
                    assert(acc@.push(e).map_values(|x: Entry| x@) =~= acc@.map_values(
                        |x: Entry| x@,
                    ).push(e@));
                }
                acc.push(e);
                let p = p_ws(s, k);
                if !(p < s.len()) {
                    return None;
                }
                if s[p] == ',' {
                    j = p + 1;
                    first = false;
                } else if s[p] == ']' {
                    return Some((acc, p + 1));
                } else {
                    return None;
                }
            },
        }
    }
}

fn p_entry_array(s: &Vec<char>, i: usize) -> (r: Option<(Vec<Entry>, usize)>)
    requires
        i <= s.len(),
    ensures
        o_entries(r) == sp_entry_array(s@, i as int),
        r matches Some((v, k)) ==> i < k <= s.len(),
{
    if !(i < s.len()) {
        return None;
    }
    if s[i] != '[' {
        return None;
    }
    p_entry_items(s, i + 1, true)
}

// ---------------------------------------------------------------------------
// Executable top-level walker
// ---------------------------------------------------------------------------
/// Executable twin of [`FieldsV`].
pub struct Fields {
    pub tag: Option<Vec<char>>,
    pub data: Option<Vec<Entry>>,
    pub data_seen: bool,
    pub data_dup: bool,
    pub index: Option<usize>,
    pub index_seen: bool,
    pub index_dup: bool,
    pub message: Option<Vec<char>>,
    pub message_seen: bool,
    pub message_dup: bool,
}

impl View for Fields {
    type V = FieldsV;

    open spec fn view(&self) -> FieldsV {
        FieldsV {
            tag: ov_c(self.tag),
            data: match self.data {
                Some(v) => Some(v@.map_values(|x: Entry| x@)),
                None => None,
            },
            data_seen: self.data_seen,
            data_dup: self.data_dup,
            index: ov_i(self.index),
            index_seen: self.index_seen,
            index_dup: self.index_dup,
            message: ov_c(self.message),
            message_seen: self.message_seen,
            message_dup: self.message_dup,
        }
    }
}

pub open spec fn o_fields(r: Option<(Fields, usize)>) -> Option<(FieldsV, int)> {
    match r {
        Some((f, k)) => Some((f@, k as int)),
        None => None,
    }
}

#[verifier::rlimit(100)]
fn p_top_members(s: &Vec<char>, i: usize, first0: bool, f0: Fields) -> (r: Option<(Fields, usize)>)
    requires
        i <= s.len(),
    ensures
        o_fields(r) == sp_top_members(s@, i as int, first0, f0@),
        r matches Some((f, k)) ==> i <= k <= s.len(),
{
    let mut j = i;
    let mut first = first0;
    let mut f = f0;
    loop
        invariant
            i <= j <= s.len(),
            sp_top_members(s@, i as int, first0, f0@) == sp_top_members(s@, j as int, first, f@),
        decreases s.len() - j,
    {
        let w = p_ws(s, j);
        if !(w < s.len()) {
            return None;
        }
        if s[w] == '}' {
            if first {
                return Some((f, w + 1));
            } else {
                return None;
            }
        }
        if s[w] != '"' {
            return None;
        }
        match p_string(s, w) {
            None => {
                return None;
            },
            Some((key, k)) => {
                let m = p_ws(s, k);
                if !(m < s.len()) {
                    return None;
                }
                if s[m] != ':' {
                    return None;
                }
                let n = p_ws(s, m + 1);
                let mut ve: usize = n;
                if chars_eq_str(&key, "type") {
                    if f.tag.is_some() {
                        return None;
                    }
                    match p_string(s, n) {
                        Some((wv, e)) => {
                            f.tag = Some(wv);
                            ve = e;
                        },
                        None => {
                            return None;
                        },
                    }
                } else if chars_eq_str(&key, "data") {
                    match p_value(s, n) {
                        None => {
                            return None;
                        },
                        Some(ve0) => {
                            match p_entry_array(s, n) {
                                Some((d, de)) => {
                                    if de == ve0 && !f.data_seen {
                                        f.data = Some(d);
                                    }
                                },
                                None => {},
                            }
                            f.data_dup = f.data_seen;
                            f.data_seen = true;
                            ve = ve0;
                        },
                    }
                } else if chars_eq_str(&key, "index") {
                    match p_value(s, n) {
                        None => {
                            return None;
                        },
                        Some(ve0) => {
                            match p_usizev(s, n) {
                                Some((v, de)) => {
                                    if de == ve0 && !f.index_seen {
                                        f.index = Some(v);
                                    }
                                },
                                None => {},
                            }
                            f.index_dup = f.index_seen;
                            f.index_seen = true;
                            ve = ve0;
                        },
                    }
                } else if chars_eq_str(&key, "message") {
                    match p_value(s, n) {
                        None => {
                            return None;
                        },
                        Some(ve0) => {
                            match p_string(s, n) {
                                Some((wv, de)) => {
                                    if de == ve0 && !f.message_seen {
                                        f.message = Some(wv);
                                    }
                                },
                                None => {},
                            }
                            f.message_dup = f.message_seen;
                            f.message_seen = true;
                            ve = ve0;
                        },
                    }
                } else {
                    match p_value(s, n) {
                        Some(e) => {
                            ve = e;
                        },
                        None => {
                            return None;
                        },
                    }
                }
                let p = p_ws(s, ve);
                if !(p < s.len()) {
                    return None;
                }
                if s[p] == ',' {
                    j = p + 1;
                    first = false;
                } else if s[p] == '}' {
                    return Some((f, p + 1));
                } else {
                    return None;
                }
            },
        }
    }
}

fn p_dispatch(f: Fields) -> (r: Option<BackendMessage>)
    ensures
        match r {
            Some(m) => sp_dispatch(f@) == Some(m@),
            None => sp_dispatch(f@) is None,
        },
{
    match f.tag {
        None => None,
        Some(tag) => {
            if chars_eq_str(&tag, "entries") {
                if f.data_seen && !f.data_dup {
                    match f.data {
                        Some(d) => Some(BackendMessage::Entries(d)),
                        None => None,
                    }
                } else {
                    None
                }
            } else if chars_eq_str(&tag, "select-success") {
                if f.index_seen && !f.index_dup {
                    match f.index {
                        Some(v) => Some(BackendMessage::SelectSuccess(v)),
                        None => None,
                    }
                } else {
                    None
                }
            } else if chars_eq_str(&tag, "remove-success") {
                if f.index_seen && !f.index_dup {
                    match f.index {
                        Some(v) => Some(BackendMessage::RemoveSuccess(v)),
                        None => None,
                    }
                } else {
                    None
                }
            } else if chars_eq_str(&tag, "success") {
                if f.message_seen && !f.message_dup {
                    match f.message {
                        Some(w) => Some(BackendMessage::Success(chars_to_string(&w))),
                        None => None,
                    }
                } else {
                    None
                }
            } else if chars_eq_str(&tag, "ready") {
                Some(BackendMessage::Ready)
            } else {
                Some(BackendMessage::Unknown)
            }
        },
    }
}

/// Decodes one protocol line, given as its characters: the message, or
/// nothing for a malformed line.
pub fn decode_chars(s: &Vec<char>) -> (r: Option<BackendMessage>)
    ensures
        match r {
            Some(m) => sp_decode(s@) == Some(m@),
            None => sp_decode(s@) is None,
        },
{
    let i = p_ws(s, 0);
    if !(i < s.len()) {
        return None;
    }
    if s[i] != '{' {
        return None;
    }
    let f0 = Fields {
        tag: None,
        data: None,
        data_seen: false,
        data_dup: false,
        index: None,
        index_seen: false,
        index_dup: false,
        message: None,
        message_seen: false,
        message_dup: false,
    };
    proof {
        assert(f0@ == sp_fields_empty());
    }
    match p_top_members(s, i + 1, true, f0) {
        None => None,
        Some((f, j)) => {
            let k = p_ws(s, j);
            if k != s.len() {
                return None;
            }
            p_dispatch(f)
        },
    }
}

/// Decodes one protocol line: the message, or nothing for a malformed line
/// (which is dropped, never fatal to later lines).
pub fn decode_line(line: &str) -> (r: Option<BackendMessage>)
    ensures
        match r {
            Some(m) => sp_decode(line@) == Some(m@),
            None => sp_decode(line@) is None,
        },
{
    let chars = to_chars(line);
    decode_chars(&chars)
}

} // verus!
