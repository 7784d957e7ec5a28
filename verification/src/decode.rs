//! The lexical layer of the response reader: whitespace, JSON strings with
//! their escapes, and scanning past whole JSON values whose content the
//! response mapping ignores.

use vstd::prelude::*;

use crate::encode::escaped;
use crate::encode::escaped_char;
use crate::encode::escaped_from;
use crate::encode::hex_digit;

verus! {

/// JSON whitespace.
pub open spec fn is_ws(c: char) -> bool {
    c == ' ' || c == '\t' || c == '\n' || c == '\r'
}

/// The first position at or after `i` that does not hold whitespace (or the
/// end of the text).
pub open spec fn skip_ws(s: Seq<char>, i: nat) -> nat
    decreases s.len() - i,
{
    if i < s.len() && is_ws(s[i as int]) {
        skip_ws(s, i + 1)
    } else {
        i
    }
}

/// The value of a hexadecimal digit character, upper or lower case, if it is
/// one.
pub open spec fn hex_val(c: char) -> Option<u32> {
    if ('0' as u32) <= (c as u32) && (c as u32) <= ('9' as u32) {
        Some(((c as u32) - ('0' as u32)) as u32)
    } else if ('a' as u32) <= (c as u32) && (c as u32) <= ('f' as u32) {
        Some((10 + (c as u32) - ('a' as u32)) as u32)
    } else if ('A' as u32) <= (c as u32) && (c as u32) <= ('F' as u32) {
        Some((10 + (c as u32) - ('A' as u32)) as u32)
    } else {
        None
    }
}

/// The value of the four hexadecimal digits at `i`, if they are there.
pub open spec fn hex4(s: Seq<char>, i: nat) -> Option<u32> {
    if i + 4 <= s.len() {
        match (hex_val(s[i as int]), hex_val(s[i as int + 1]), hex_val(s[i as int + 2]), hex_val(
            s[i as int + 3],
        )) {
            (Some(a), Some(b), Some(c), Some(d)) => Some(
                (a * 0x1000 + b * 0x100 + c * 0x10 + d) as u32,
            ),
            _ => None,
        }
    } else {
        None
    }
}

/// The rest of a JSON string read from inside its quotes at `i`, with `acc`
/// the text decoded so far: the decoded text and the position after the
/// closing quote. The escapes are those of the JSON grammar, with a
/// supplementary-plane character written as a pair of `\u` surrogate
/// escapes; a lone surrogate escape, an unknown escape, or a raw control
/// character fails the parse.
pub open spec fn string_body(s: Seq<char>, i: nat, acc: Seq<char>) -> Option<(Seq<char>, nat)>
    decreases s.len() - i,
{
    if i >= s.len() {
        None
    } else {
        let c = s[i as int];
        if c == '"' {
            Some((acc, i + 1))
        } else if c == '\\' {
            if i + 2 > s.len() {
                None
            } else {
                let e = s[i as int + 1];
                if e == '"' {
                    string_body(s, i + 2, acc.push('"'))
                } else if e == '\\' {
                    string_body(s, i + 2, acc.push('\\'))
                } else if e == '/' {
                    string_body(s, i + 2, acc.push('/'))
                } else if e == 'b' {
                    string_body(s, i + 2, acc.push('\u{8}'))
                } else if e == 'f' {
                    string_body(s, i + 2, acc.push('\u{c}'))
                } else if e == 'n' {
                    string_body(s, i + 2, acc.push('\n'))
                } else if e == 'r' {
                    string_body(s, i + 2, acc.push('\r'))
                } else if e == 't' {
                    string_body(s, i + 2, acc.push('\t'))
                } else if e == 'u' {
                    match hex4(s, i + 2) {
                        None => None,
                        Some(u) => {
                            if 0xD800 <= u && u <= 0xDBFF {
                                if i + 12 <= s.len() && s[i as int + 6] == '\\' && s[i as int + 7]
                                    == 'u' {
                                    match hex4(s, i + 8) {
                                        None => None,
                                        Some(l) => {
                                            if 0xDC00 <= l && l <= 0xDFFF {
                                                string_body(
                                                    s,
                                                    i + 12,
                                                    acc.push(
                                                        ((0x10000 + (u - 0xD800) * 0x400 + (l
                                                            - 0xDC00)) as u32) as char,
                                                    ),
                                                )
                                            } else {
                                                None
                                            }
                                        },
                                    }
                                } else {
                                    None
                                }
                            } else if 0xDC00 <= u && u <= 0xDFFF {
                                None
                            } else {
                                string_body(s, i + 6, acc.push(u as char))
                            }
                        },
                    }
                } else {
                    None
                }
            }
        } else if (c as u32) < 0x20 {
            None
        } else {
            string_body(s, i + 1, acc.push(c))
        }
    }
}

/// One JSON string read at `i`, which must hold the opening quote: the
/// decoded text and the position after the closing quote.
pub open spec fn parse_string(s: Seq<char>, i: nat) -> Option<(Seq<char>, nat)> {
    if i < s.len() && s[i as int] == '"' {
        string_body(s, i + 1, Seq::empty())
    } else {
        None
    }
}

/// A character that may stand in the liberal number token this parser scans
/// past: a digit, a sign, the decimal point or an exponent marker. The run
/// is taken without checking the number grammar itself, which only widens
/// what is accepted in fields the response mapping ignores.
pub open spec fn is_num_char(c: char) -> bool {
    (('0' as u32) <= (c as u32) && (c as u32) <= ('9' as u32)) || c == '-' || c == '+' || c == '.'
        || c == 'e' || c == 'E'
}

/// The first position at or after `i` past a run of number characters.
pub open spec fn skip_num(s: Seq<char>, i: nat) -> nat
    decreases s.len() - i,
{
    if i < s.len() && is_num_char(s[i as int]) {
        skip_num(s, i + 1)
    } else {
        i
    }
}

/// Where the next member or element of a list begins: at the first
/// non-blank for the first entry, after a separating comma for every later
/// one.
pub open spec fn entry_start(s: Seq<char>, i: nat, first: bool) -> Option<nat> {
    let j = skip_ws(s, i);
    if first {
        Some(j)
    } else if j < s.len() && s[j as int] == ',' {
        Some(skip_ws(s, j + 1))
    } else {
        None
    }
}

/// The position after one whole JSON value read at `i` (no leading
/// whitespace), or `None` where none stands there.
pub open spec fn skip_value(s: Seq<char>, i: nat) -> Option<nat>
    decreases s.len() - i, 0int,
{
    if i >= s.len() {
        None
    } else {
        let c = s[i as int];
        if c == '"' {
            match parse_string(s, i) {
                None => None,
                Some(p) => Some(p.1),
            }
        } else if c == '{' {
            skip_members(s, i + 1, true)
        } else if c == '[' {
            skip_elements(s, i + 1, true)
        } else if c == 't' {
            if i + 4 <= s.len() && s[i as int + 1] == 'r' && s[i as int + 2] == 'u' && s[i as int
                + 3] == 'e' {
                Some(i + 4)
            } else {
                None
            }
        } else if c == 'f' {
            if i + 5 <= s.len() && s[i as int + 1] == 'a' && s[i as int + 2] == 'l' && s[i as int
                + 3] == 's' && s[i as int + 4] == 'e' {
                Some(i + 5)
            } else {
                None
            }
        } else if c == 'n' {
            if i + 4 <= s.len() && s[i as int + 1] == 'u' && s[i as int + 2] == 'l' && s[i as int
                + 3] == 'l' {
                Some(i + 4)
            } else {
                None
            }
        } else if c == '-' || (('0' as u32) <= (c as u32) && (c as u32) <= ('9' as u32)) {
            Some(skip_num(s, i + 1))
        } else {
            None
        }
    }
}

/// The position after the rest of an object's member list, entered at `i`
/// (just after `{` when `first`, just after a member otherwise).
pub open spec fn skip_members(s: Seq<char>, i: nat, first: bool) -> Option<nat>
    decreases s.len() - i, 1int,
{
    let j = skip_ws(s, i);
    if j >= s.len() {
        None
    } else if s[j as int] == '}' {
        Some(j + 1)
    } else {
        match entry_start(s, i, first) {
            None => None,
            Some(m) => {
                if i <= m && m <= s.len() {
                    match parse_string(s, m) {
                        None => None,
                        Some(key) => {
                            let k = skip_ws(s, key.1);
                            if k < s.len() && s[k as int] == ':' {
                                let v = skip_ws(s, k + 1);
                                if i <= v && v <= s.len() {
                                    match skip_value(s, v) {
                                        None => None,
                                        Some(e) => {
                                            if i < e && e <= s.len() {
                                                skip_members(s, e, false)
                                            } else {
                                                None
                                            }
                                        },
                                    }
                                } else {
                                    None
                                }
                            } else {
                                None
                            }
                        },
                    }
                } else {
                    None
                }
            },
        }
    }
}

/// The position after the rest of an array's element list, entered at `i`
/// (just after `[` when `first`, just after an element otherwise).
pub open spec fn skip_elements(s: Seq<char>, i: nat, first: bool) -> Option<nat>
    decreases s.len() - i, 1int,
{
    let j = skip_ws(s, i);
    if j >= s.len() {
        None
    } else if s[j as int] == ']' {
        Some(j + 1)
    } else {
        match entry_start(s, i, first) {
            None => None,
            Some(m) => {
                if i <= m && m <= s.len() {
                    match skip_value(s, m) {
                        None => None,
                        Some(e) => {
                            if i < e && e <= s.len() {
                                skip_elements(s, e, false)
                            } else {
                                None
                            }
                        },
                    }
                } else {
                    None
                }
            },
        }
    }
}

pub(crate) fn skip_ws_exec(s: &str, n: usize, i: usize) -> (j: usize)
    requires
        n == s@.len(),
        i <= n,
    ensures
        j == skip_ws(s@, i as nat),
        i <= j <= n,
{
    let mut j: usize = i;
    while j < n && is_ws_exec(s.get_char(j))
        invariant
            n == s@.len(),
            i <= j <= n,
            skip_ws(s@, j as nat) == skip_ws(s@, i as nat),
        decreases n - j,
    {
        j = j + 1;
    }
    j
}

#[inline]
fn is_ws_exec(c: char) -> (r: bool)
    ensures
        r == is_ws(c),
{
    c == ' ' || c == '\t' || c == '\n' || c == '\r'
}

fn hex_val_exec(c: char) -> (r: Option<u32>)
    ensures
        r == hex_val(c),
{
    let u = c as u32;
    if 0x30 <= u && u <= 0x39 {
        Some(u - 0x30)
    } else if 0x61 <= u && u <= 0x66 {
        Some(10 + u - 0x61)
    } else if 0x41 <= u && u <= 0x46 {
        Some(10 + u - 0x41)
    } else {
        None
    }
}

fn hex4_exec(s: &str, n: usize, i: usize) -> (r: Option<u32>)
    requires
        n == s@.len(),
        i <= n,
    ensures
        r == hex4(s@, i as nat),
        r matches Some(v) ==> v < 0x10000,
{
    if n - i < 4 {
        return None;
    }
    let a = hex_val_exec(s.get_char(i));
    let b = hex_val_exec(s.get_char(i + 1));
    let c = hex_val_exec(s.get_char(i + 2));
    let d = hex_val_exec(s.get_char(i + 3));
    match (a, b, c, d) {
        (Some(a), Some(b), Some(c), Some(d)) => Some(a * 0x1000 + b * 0x100 + c * 0x10 + d),
        _ => None,
    }
}

pub(crate) fn parse_string_exec(s: &str, n: usize, i: usize) -> (r: Option<(String, usize)>)
    requires
        n == s@.len(),
        i <= n,
    ensures
        (r is None <==> parse_string(s@, i as nat) is None),
        r matches Some(p) ==> parse_string(s@, i as nat) == Some((p.0@, p.1 as nat)) && i < p.1
            <= n,
{
    if i >= n || s.get_char(i) != '"' {
        return None;
    }
    let mut j: usize = i + 1;
    let mut acc = String::new();
    loop
        invariant
            n == s@.len(),
            i < n,
            s@[i as int] == '"',
            i + 1 <= j <= n,
            string_body(s@, j as nat, acc@) == string_body(s@, (i + 1) as nat, Seq::<
                char,
            >::empty()),
        decreases n - j,
    {
        if j >= n {
            return None;
        }
        let c = s.get_char(j);
        if c == '"' {
            return Some((acc, j + 1));
        } else if c == '\\' {
            if n - j < 2 {
                return None;
            }
            let e = s.get_char(j + 1);
            if e == '"' {
                acc.push('"');
                j = j + 2;
            } else if e == '\\' {
                acc.push('\\');
                j = j + 2;
            } else if e == '/' {
                acc.push('/');
                j = j + 2;
            } else if e == 'b' {
                acc.push('\u{8}');
                j = j + 2;
            } else if e == 'f' {
                acc.push('\u{c}');
                j = j + 2;
            } else if e == 'n' {
                acc.push('\n');
                j = j + 2;
            } else if e == 'r' {
                acc.push('\r');
                j = j + 2;
            } else if e == 't' {
                acc.push('\t');
                j = j + 2;
            } else if e == 'u' {
                let u = match hex4_exec(s, n, j + 2) {
                    None => {
                        return None;
                    },
                    Some(u) => u,
                };
                if 0xD800 <= u && u <= 0xDBFF {
                    if !(n - j >= 12 && s.get_char(j + 6) == '\\' && s.get_char(j + 7) == 'u') {
                        return None;
                    }
                    let l = match hex4_exec(s, n, j + 8) {
                        None => {
                            return None;
                        },
                        Some(l) => l,
                    };
                    if !(0xDC00 <= l && l <= 0xDFFF) {
                        return None;
                    }
                    let code: u32 = 0x10000 + (u - 0xD800) * 0x400 + (l - 0xDC00);
                    match char::from_u32(code) {
                        Some(ch) => {
                            proof {
                                vstd::utf8::char_u32_cast(ch, code);
                            }
                            acc.push(ch);
                            j = j + 12;
                        },
                        None => {
                            proof {
                                assert(false);
                            }
                            return None;
                        },
                    }
                } else if 0xDC00 <= u && u <= 0xDFFF {
                    return None;
                } else {
                    match char::from_u32(u) {
                        Some(ch) => {
                            proof {
                                vstd::utf8::char_u32_cast(ch, u);
                            }
                            acc.push(ch);
                            j = j + 6;
                        },
                        None => {
                            proof {
                                assert(false);
                            }
                            return None;
                        },
                    }
                }
            } else {
                return None;
            }
        } else if (c as u32) < 0x20 {
            return None;
        } else {
            acc.push(c);
            j = j + 1;
        }
    }
}

fn skip_num_exec(s: &str, n: usize, i: usize) -> (j: usize)
    requires
        n == s@.len(),
        i <= n,
    ensures
        j == skip_num(s@, i as nat),
        i <= j <= n,
{
    let mut j: usize = i;
    while j < n && is_num_char_exec(s.get_char(j))
        invariant
            n == s@.len(),
            i <= j <= n,
            skip_num(s@, j as nat) == skip_num(s@, i as nat),
        decreases n - j,
    {
        j = j + 1;
    }
    j
}

#[inline]
fn is_num_char_exec(c: char) -> (r: bool)
    ensures
        r == is_num_char(c),
{
    let u = c as u32;
    (0x30 <= u && u <= 0x39) || c == '-' || c == '+' || c == '.' || c == 'e' || c == 'E'
}

pub(crate) fn entry_start_exec(s: &str, n: usize, i: usize, first: bool) -> (r: Option<usize>)
    requires
        n == s@.len(),
        i <= n,
    ensures
        (r is None <==> entry_start(s@, i as nat, first) is None),
        r matches Some(m) ==> entry_start(s@, i as nat, first) == Some(m as nat) && i <= m <= n,
{
    let j = skip_ws_exec(s, n, i);
    if first {
        return Some(j);
    }
    if j < n && s.get_char(j) == ',' {
        Some(skip_ws_exec(s, n, j + 1))
    } else {
        None
    }
}

pub(crate) fn skip_value_exec(s: &str, n: usize, i: usize) -> (r: Option<usize>)
    requires
        n == s@.len(),
        i <= n,
    ensures
        (r is None <==> skip_value(s@, i as nat) is None),
        r matches Some(j) ==> skip_value(s@, i as nat) == Some(j as nat) && i < j <= n,
    decreases n - i, 0int,
{
    if i >= n {
        return None;
    }
    let c = s.get_char(i);
    if c == '"' {
        match parse_string_exec(s, n, i) {
            None => None,
            Some(p) => Some(p.1),
        }
    } else if c == '{' {
        skip_members_exec(s, n, i + 1, true)
    } else if c == '[' {
        skip_elements_exec(s, n, i + 1, true)
    } else if c == 't' {
        if n - i >= 4 && s.get_char(i + 1) == 'r' && s.get_char(i + 2) == 'u' && s.get_char(i + 3)
            == 'e' {
            Some(i + 4)
        } else {
            None
        }
    } else if c == 'f' {
        if n - i >= 5 && s.get_char(i + 1) == 'a' && s.get_char(i + 2) == 'l' && s.get_char(i + 3)
            == 's' && s.get_char(i + 4) == 'e' {
            Some(i + 5)
        } else {
            None
        }
    } else if c == 'n' {
        if n - i >= 4 && s.get_char(i + 1) == 'u' && s.get_char(i + 2) == 'l' && s.get_char(i + 3)
            == 'l' {
            Some(i + 4)
        } else {
            None
        }
    } else if c == '-' || {
        let u = c as u32;
        0x30 <= u && u <= 0x39
    } {
        Some(skip_num_exec(s, n, i + 1))
    } else {
        None
    }
}

fn skip_members_exec(s: &str, n: usize, i: usize, first: bool) -> (r: Option<usize>)
    requires
        n == s@.len(),
        i <= n,
    ensures
        (r is None <==> skip_members(s@, i as nat, first) is None),
        r matches Some(j) ==> skip_members(s@, i as nat, first) == Some(j as nat) && i < j <= n,
    decreases n - i, 1int,
{
    let j = skip_ws_exec(s, n, i);
    if j >= n {
        return None;
    }
    if s.get_char(j) == '}' {
        return Some(j + 1);
    }
    let m = match entry_start_exec(s, n, i, first) {
        None => {
            return None;
        },
        Some(m) => m,
    };
    let key_end = match parse_string_exec(s, n, m) {
        None => {
            return None;
        },
        Some(p) => p.1,
    };
    let k = skip_ws_exec(s, n, key_end);
    if !(k < n && s.get_char(k) == ':') {
        return None;
    }
    let v = skip_ws_exec(s, n, k + 1);
    let e = match skip_value_exec(s, n, v) {
        None => {
            return None;
        },
        Some(e) => e,
    };
    skip_members_exec(s, n, e, false)
}

fn skip_elements_exec(s: &str, n: usize, i: usize, first: bool) -> (r: Option<usize>)
    requires
        n == s@.len(),
        i <= n,
    ensures
        (r is None <==> skip_elements(s@, i as nat, first) is None),
        r matches Some(j) ==> skip_elements(s@, i as nat, first) == Some(j as nat) && i < j <= n,
    decreases n - i, 1int,
{
    let j = skip_ws_exec(s, n, i);
    if j >= n {
        return None;
    }
    if s.get_char(j) == ']' {
        return Some(j + 1);
    }
    let m = match entry_start_exec(s, n, i, first) {
        None => {
            return None;
        },
        Some(m) => m,
    };
    let e = match skip_value_exec(s, n, m) {
        None => {
            return None;
        },
        Some(e) => e,
    };
    skip_elements_exec(s, n, e, false)
}

proof fn lemma_hex_val_of_hex_digit(d: int)
    requires
        0 <= d < 16,
    ensures
        hex_val(hex_digit(d)) == Some(d as u32),
{
}

#[verifier::rlimit(50)]
proof fn lemma_string_body_reads_escaped(s: Seq<char>, t: Seq<char>, k: nat, p: nat, acc: Seq<char>)
    requires
        k <= s.len(),
        p <= t.len(),
        t.subrange(p as int, t.len() as int) == escaped_from(s, k) + seq!['"'],
    ensures
        string_body(t, p, acc) == Some((acc + s.skip(k as int), t.len() as nat)),
    decreases s.len() - k,
{
    let suffix = escaped_from(s, k) + seq!['"'];
    let sub = t.subrange(p as int, t.len() as int);
    assert(t.len() - p == suffix.len());
    if k == s.len() {
        assert(suffix =~= seq!['"']);
        assert(sub[0] == t[p as int]);
        assert(t[p as int] == '"');
        assert(string_body(t, p, acc) == Some((acc, p + 1)));
        assert(acc + s.skip(k as int) =~= acc);
    } else {
        let c = s[k as int];
        let ec = escaped_char(c);
        assert(escaped_from(s, k) == ec + escaped_from(s, k + 1));
        assert(suffix =~= ec + (escaped_from(s, k + 1) + seq!['"']));
        let w = ec.len();
        assert forall|m: int| 0 <= m < w implies t[p + m] == ec[m] by {
            assert(sub[m] == t[p + m]);
            assert(suffix[m] == ec[m]);
        }
        assert forall|m: int|
            0 <= m < t.len() - p - w implies #[trigger] t.subrange(
            (p + w) as int,
            t.len() as int,
        )[m] == (escaped_from(s, k + 1) + seq!['"'])[m] by {
            assert(t.subrange((p + w) as int, t.len() as int)[m] == t[p + w + m]);
            assert(sub[w + m] == t[p + (w + m)]);
            assert(suffix[w + m] == (escaped_from(s, k + 1) + seq!['"'])[m]);
        }
        assert(t.subrange((p + w) as int, t.len() as int) =~= escaped_from(s, k + 1)
            + seq!['"']);
        assert(acc.push(c) + s.skip(k as int + 1) =~= acc + s.skip(k as int));
        if c == '"' || c == '\\' || c == '\u{8}' || c == '\t' || c == '\n' || c == '\u{c}' || c
            == '\r' {
            assert(t[p as int + 0] == ec[0] && t[p as int + 1] == ec[1]);
            assert(t[p as int] == '\\');
            lemma_string_body_reads_escaped(s, t, k + 1, p + 2, acc.push(c));
        } else if (c as u32) < 0x20 {
            let u = c as u32;
            assert(t[p as int + 0] == ec[0] && t[p as int + 1] == ec[1] && t[p as int + 2] == ec[2] && t[p as int + 3] == ec[3]
                && t[p as int + 4] == ec[4] && t[p as int + 5] == ec[5]);
            assert(t[p as int] == '\\');
            assert(t[p as int + 1] == 'u');
            assert(t[p as int + 2] == '0');
            assert(t[p as int + 3] == '0');
            assert(t[p as int + 4] == hex_digit(u as int / 16));
            assert(t[p as int + 5] == hex_digit(u as int % 16));
            lemma_hex_val_of_hex_digit(u as int / 16);
            lemma_hex_val_of_hex_digit(u as int % 16);
            assert(hex4(t, p + 2) == Some(u)) by {
                assert(hex_val(t[p as int + 2]) == Some(0u32));
                assert(hex_val(t[p as int + 3]) == Some(0u32));
                assert(u == 0x10 * (u / 0x10) + u % 0x10);
            }
            assert((u as char) == c) by {
                vstd::utf8::char_u32_cast(c, u);
            }
            lemma_string_body_reads_escaped(s, t, k + 1, p + 6, acc.push(c));
        } else {
            assert(t[p as int + 0] == ec[0]);
            assert(t[p as int] == c);
            lemma_string_body_reads_escaped(s, t, k + 1, p + 1, acc.push(c));
        }
    }
}

/// What the writer escapes, the reader decodes back verbatim: a quote, the
/// JSON escaping of any text, and a closing quote parse as a JSON string
/// holding exactly that text.
pub proof fn lemma_escape_round_trip(s: Seq<char>)
    ensures
        parse_string(seq!['"'] + escaped(s) + seq!['"'], 0) == Some(
            (s, escaped(s).len() + 2 as nat),
        ),
{
    let t = seq!['"'] + escaped(s) + seq!['"'];
    assert(t[0] == '"');
    assert(t.subrange(1, t.len() as int) =~= escaped(s) + seq!['"']);
    lemma_string_body_reads_escaped(s, t, 0, 1, Seq::empty());
    assert(Seq::<char>::empty() + s.skip(0) =~= s);
    assert(t.len() == escaped(s).len() + 2);
}

} // verus!
