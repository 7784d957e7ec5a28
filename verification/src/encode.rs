//! Writing the request body: JSON string escaping, decimal rendering of the
//! token cap, and the body's exact layout, each pinned to a spec function.

use vstd::prelude::*;

verus! {

/// The lower-case hexadecimal digit character for a value below 16 (and the
/// digit `0` for anything else, which no caller asks for).
pub open spec fn hex_digit(d: int) -> char {
    if d == 0 {
        '0'
    } else if d == 1 {
        '1'
    } else if d == 2 {
        '2'
    } else if d == 3 {
        '3'
    } else if d == 4 {
        '4'
    } else if d == 5 {
        '5'
    } else if d == 6 {
        '6'
    } else if d == 7 {
        '7'
    } else if d == 8 {
        '8'
    } else if d == 9 {
        '9'
    } else if d == 10 {
        'a'
    } else if d == 11 {
        'b'
    } else if d == 12 {
        'c'
    } else if d == 13 {
        'd'
    } else if d == 14 {
        'e'
    } else if d == 15 {
        'f'
    } else {
        '0'
    }
}

/// What JSON string escaping makes of one character: the short escapes of
/// the JSON grammar, a six-character `\u00..` escape for the remaining
/// control characters, and every other character verbatim.
pub open spec fn escaped_char(c: char) -> Seq<char> {
    if c == '"' {
        seq!['\\', '"']
    } else if c == '\\' {
        seq!['\\', '\\']
    } else if c == '\u{8}' {
        seq!['\\', 'b']
    } else if c == '\t' {
        seq!['\\', 't']
    } else if c == '\n' {
        seq!['\\', 'n']
    } else if c == '\u{c}' {
        seq!['\\', 'f']
    } else if c == '\r' {
        seq!['\\', 'r']
    } else if (c as u32) < 0x20 {
        seq!['\\', 'u', '0', '0', hex_digit((c as u32) as int / 16), hex_digit((c as u32) as int % 16)]
    } else {
        seq![c]
    }
}

/// JSON string escaping of a text from position `i` on.
pub open spec fn escaped_from(s: Seq<char>, i: nat) -> Seq<char>
    decreases s.len() - i,
{
    if i >= s.len() {
        Seq::empty()
    } else {
        escaped_char(s[i as int]) + escaped_from(s, i + 1)
    }
}

/// JSON string escaping of a whole text: each character replaced by its
/// escape, in order.
pub open spec fn escaped(s: Seq<char>) -> Seq<char> {
    escaped_from(s, 0)
}

/// The decimal digits of a nonnegative integer, most significant first (and
/// the empty text for a negative one, which no caller asks for).
pub open spec fn dec_digits(n: int) -> Seq<char>
    decreases n,
{
    if n < 0 {
        Seq::empty()
    } else if n < 10 {
        seq![hex_digit(n)]
    } else {
        dec_digits(n / 10) + seq![hex_digit(n % 10)]
    }
}

/// The JSON rendering of a signed integer: a minus sign for a negative
/// value, then the decimal digits of its magnitude.
pub open spec fn int_text(n: int) -> Seq<char> {
    if n < 0 {
        seq!['-'] + dec_digits(-n)
    } else {
        dec_digits(n)
    }
}

/// The exact request body sent for one prompt: a JSON object with the model
/// name, a single message carrying the prompt under the role `system`, the
/// temperature text verbatim, and the token cap, in that order. The model
/// name and the prompt stand between quotes, JSON-escaped.
pub open spec fn request_body_view(
    model: Seq<char>,
    temperature: Seq<char>,
    max_tokens: int,
    prompt: Seq<char>,
) -> Seq<char> {
    "{\"model\":\""@ + escaped(model) + "\",\"messages\":[{\"role\":\"system\",\"content\":\""@
        + escaped(prompt) + "\"}],\"temperature\":"@ + temperature + ",\"max_tokens\":"@
        + int_text(max_tokens) + "}"@
}

fn hex_digit_exec(d: u32) -> (c: char)
    requires
        d < 16,
    ensures
        c == hex_digit(d as int),
{
    if d == 0 {
        '0'
    } else if d == 1 {
        '1'
    } else if d == 2 {
        '2'
    } else if d == 3 {
        '3'
    } else if d == 4 {
        '4'
    } else if d == 5 {
        '5'
    } else if d == 6 {
        '6'
    } else if d == 7 {
        '7'
    } else if d == 8 {
        '8'
    } else if d == 9 {
        '9'
    } else if d == 10 {
        'a'
    } else if d == 11 {
        'b'
    } else if d == 12 {
        'c'
    } else if d == 13 {
        'd'
    } else if d == 14 {
        'e'
    } else {
        'f'
    }
}

/// The JSON string escaping of `s`, ready to stand between quotes in a JSON
/// document.
pub fn json_escape(s: &str) -> (r: String)
    ensures
        r@ == escaped(s@),
{
    let n: usize = s.unicode_len();
    let mut out = String::new();
    let mut i: usize = 0;
    while i < n
        invariant
            n == s@.len(),
            i <= n,
            out@ + escaped_from(s@, i as nat) == escaped(s@),
        decreases n - i,
    {
        let c = s.get_char(i);
        let ghost out0 = out@;
        if c == '"' {
            out.push('\\');
            out.push('"');
        } else if c == '\\' {
            out.push('\\');
            out.push('\\');
        } else if c == '\u{8}' {
            out.push('\\');
            out.push('b');
        } else if c == '\t' {
            out.push('\\');
            out.push('t');
        } else if c == '\n' {
            out.push('\\');
            out.push('n');
        } else if c == '\u{c}' {
            out.push('\\');
            out.push('f');
        } else if c == '\r' {
            out.push('\\');
            out.push('r');
        } else if (c as u32) < 0x20 {
            out.push('\\');
            out.push('u');
            out.push('0');
            out.push('0');
            out.push(hex_digit_exec((c as u32) / 16));
            out.push(hex_digit_exec((c as u32) % 16));
        } else {
            out.push(c);
        }
        proof {
            assert(out@ =~= out0 + escaped_char(c));
            assert(out@ + escaped_from(s@, (i + 1) as nat) =~= out0 + escaped_from(s@, i as nat));
        }
        i = i + 1;
    }
    proof {
        assert(out@ =~= out@ + escaped_from(s@, n as nat));
    }
    out
}

fn push_dec_digits(out: &mut String, n: u32)
    ensures
        final(out)@ == old(out)@ + dec_digits(n as int),
    decreases n,
{
    if n < 10 {
        out.push(hex_digit_exec(n));
        proof {
            assert(final(out)@ =~= old(out)@ + dec_digits(n as int));
        }
    } else {
        push_dec_digits(out, n / 10);
        out.push(hex_digit_exec(n % 10));
        proof {
            assert(final(out)@ =~= old(out)@ + dec_digits(n as int));
        }
    }
}

/// The JSON rendering of a signed 32-bit integer as decimal text.
pub fn i32_text(n: i32) -> (r: String)
    ensures
        r@ == int_text(n as int),
{
    let mut out = String::new();
    if n < 0 {
        out.push('-');
        let m: u32 = (-(n as i64)) as u32;
        proof {
            assert(m as int == -(n as int));
        }
        push_dec_digits(&mut out, m);
        proof {
            assert(out@ =~= int_text(n as int));
        }
    } else {
        push_dec_digits(&mut out, n as u32);
        proof {
            assert(out@ =~= int_text(n as int));
        }
    }
    out
}

/// The request body for one prompt, built from the configuration's parts;
/// exactly [`request_body_view`] of their texts.
pub fn render_request_body(model: &str, temperature: &str, max_tokens: i32, prompt: &str) -> (r:
    String)
    ensures
        r@ == request_body_view(model@, temperature@, max_tokens as int, prompt@),
{
    let mut out = String::new();
    out.append("{\"model\":\"");
    let escaped_model = json_escape(model);
    out.append(escaped_model.as_str());
    out.append("\",\"messages\":[{\"role\":\"system\",\"content\":\"");
    let escaped_prompt = json_escape(prompt);
    out.append(escaped_prompt.as_str());
    out.append("\"}],\"temperature\":");
    out.append(temperature);
    out.append(",\"max_tokens\":");
    let cap = i32_text(max_tokens);
    out.append(cap.as_str());
    out.append("}");
    proof {
        assert(out@ =~= request_body_view(model@, temperature@, max_tokens as int, prompt@));
    }
    out
}

} // verus!
