//! Build the exact byte-for-byte protocol payloads: JSON bodies for the
//! actuation endpoint and the vision endpoint, URLs, and diagnostic
//! messages. String content is escaped as a JSON serializer would escape
//! it: quote, backslash, and control characters only.

use vstd::prelude::*;
use vstd::string::StringExecFns;
use crate::strutil::dec_str;
use crate::strutil::u64_to_string;
use crate::strutil::push_char;

verus! {

pub open spec fn hex_digit_char(d: nat) -> char {
    if d == 0 {
        '0'
    } else if d == 1 {
        '1'
    } else if d == 2 {
        '2'
    } else if d == 3 {
        '3'
    } else if d == 4 {
        '4'
    } else if d == 5 {
        '5'
    } else if d == 6 {
        '6'
    } else if d == 7 {
        '7'
    } else if d == 8 {
        '8'
    } else if d == 9 {
        '9'
    } else if d == 10 {
        'a'
    } else if d == 11 {
        'b'
    } else if d == 12 {
        'c'
    } else if d == 13 {
        'd'
    } else if d == 14 {
        'e'
    } else {
        'f'
    }
}

/// How one character appears inside a JSON string literal.
pub open spec fn escaped_char(c: char) -> Seq<char> {
    if c == '"' {
        seq!['\\', '"']
    } else if c == '\\' {
        seq!['\\', '\\']
    } else if c == '\u{8}' {
        seq!['\\', 'b']
    } else if c == '\u{c}' {
        seq!['\\', 'f']
    } else if c == '\n' {
        seq!['\\', 'n']
    } else if c == '\r' {
        seq!['\\', 'r']
    } else if c == '\t' {
        seq!['\\', 't']
    } else if (c as u32) < 0x20 {
        seq!['\\', 'u', '0', '0', hex_digit_char((c as u32 / 16) as nat), hex_digit_char(
            (c as u32 % 16) as nat,
        )]
    } else {
        seq![c]
    }
}

/// The body of a JSON string literal holding `s`.
pub open spec fn json_escaped(s: Seq<char>) -> Seq<char>
    decreases s.len(),
{
    if s.len() == 0 {
        Seq::empty()
    } else {
        json_escaped(s.drop_last()) + escaped_char(s.last())
    }
}

fn hex_digit_char_of(d: u32) -> (c: char)
    requires
        d < 16,
    ensures
        c == hex_digit_char(d as nat),
{
    if d == 0 {
        '0'
    } else if d == 1 {
        '1'
    } else if d == 2 {
        '2'
    } else if d == 3 {
        '3'
    } else if d == 4 {
        '4'
    } else if d == 5 {
        '5'
    } else if d == 6 {
        '6'
    } else if d == 7 {
        '7'
    } else if d == 8 {
        '8'
    } else if d == 9 {
        '9'
    } else if d == 10 {
        'a'
    } else if d == 11 {
        'b'
    } else if d == 12 {
        'c'
    } else if d == 13 {
        'd'
    } else if d == 14 {
        'e'
    } else {
        'f'
    }
}

fn append_escaped_char(out: &mut String, c: char)
    ensures
        final(out)@ == old(out)@ + escaped_char(c),
{
    if c == '"' {
        push_char(out, '\\');
        push_char(out, '"');
        assert(out@ =~= old(out)@ + escaped_char(c));
    } else if c == '\\' {
        push_char(out, '\\');
        push_char(out, '\\');
        assert(out@ =~= old(out)@ + escaped_char(c));
    } else if c == '\u{8}' {
        push_char(out, '\\');
        push_char(out, 'b');
        assert(out@ =~= old(out)@ + escaped_char(c));
    } else if c == '\u{c}' {
        push_char(out, '\\');
        push_char(out, 'f');
        assert(out@ =~= old(out)@ + escaped_char(c));
    } else if c == '\n' {
        push_char(out, '\\');
        push_char(out, 'n');
        assert(out@ =~= old(out)@ + escaped_char(c));
    } else if c == '\r' {
        push_char(out, '\\');
        push_char(out, 'r');
        assert(out@ =~= old(out)@ + escaped_char(c));
    } else if c == '\t' {
        push_char(out, '\\');
        push_char(out, 't');
        assert(out@ =~= old(out)@ + escaped_char(c));
    } else if (c as u32) < 0x20 {
        push_char(out, '\\');
        push_char(out, 'u');
        push_char(out, '0');
        push_char(out, '0');
        push_char(out, hex_digit_char_of((c as u32) / 16));
        push_char(out, hex_digit_char_of((c as u32) % 16));
        assert(out@ =~= old(out)@ + escaped_char(c));
    } else {
        push_char(out, c);
        assert(out@ =~= old(out)@ + escaped_char(c));
    }
}

/// Append `s`, escaped for a JSON string literal, to `out`.
fn append_json_escaped(out: &mut String, s: &str)
    ensures
        final(out)@ == old(out)@ + json_escaped(s@),
{
    let n = s.unicode_len();
    let mut i: usize = 0;
    proof {
        assert(s@.take(0) =~= Seq::<char>::empty());
        assert(out@ =~= out@ + json_escaped(s@.take(0)));
    }
    while i < n
        invariant
            0 <= i <= n,
            n == s@.len(),
            out@ == old(out)@ + json_escaped(s@.take(i as int)),
        decreases n - i,
    {
        let c = s.get_char(i);
        append_escaped_char(out, c);
        proof {
            assert(s@.take(i + 1).drop_last() =~= s@.take(i as int));
            assert(s@.take(i + 1).last() == s@[i as int]);
            assert(json_escaped(s@.take(i + 1)) == json_escaped(s@.take(i as int)) + escaped_char(
                s@[i as int],
            ));
            assert(out@ =~= old(out)@ + json_escaped(s@.take(i + 1)));
        }
        i = i + 1;
    }
    proof {
        assert(s@.take(n as int) =~= s@);
    }
}

/// The click route's payload shape: an absolute pixel position.
pub struct ClickPayload {
    pub x: i32,
    pub y: i32,
}

/// The type route's payload shape: the text to type out.
pub struct TypePayload {
    pub text: String,
}

/// The click payload: `{"x":<x>,"y":<y>}`.
pub open spec fn click_body_spec(x: u32, y: u32) -> Seq<char> {
    ("{\"x\":")@ + dec_str(x as nat) + (",\"y\":")@ + dec_str(y as nat) + ("}")@
}

pub fn click_request_body(x: u32, y: u32) -> (r: String)
    ensures
        r@ == click_body_spec(x, y),
{
    let mut s = String::new();
    s.append("{\"x\":");
    let xs = u64_to_string(x as u64);
    s.append(xs.as_str());
    s.append(",\"y\":");
    let ys = u64_to_string(y as u64);
    s.append(ys.as_str());
    s.append("}");
    proof {
        assert(s@ =~= click_body_spec(x, y));
    }
    s
}

/// The type payload: `{"text":"<escaped text>"}`.
pub open spec fn type_body_spec(text: Seq<char>) -> Seq<char> {
    ("{\"text\":\"")@ + json_escaped(text) + ("\"}")@
}

pub fn type_request_body(text: &str) -> (r: String)
    ensures
        r@ == type_body_spec(text@),
{
    let mut s = String::new();
    s.append("{\"text\":\"");
    append_json_escaped(&mut s, text);
    s.append("\"}");
    proof {
        assert(s@ =~= type_body_spec(text@));
    }
    s
}

/// The chat-completions request: the prompt and the base64 screenshot
/// embedded in the fixed message frame, with deterministic sampling
/// parameters.
pub open spec fn vision_body_spec(prompt: Seq<char>, image_b64: Seq<char>) -> Seq<char> {
    (
    "{\"model\":\"allenai/Molmo-7B-D-0924\",\"messages\":[{\"role\":\"user\",\"content\":[{\"type\":\"text\",\"text\":\""
    )@ + json_escaped(prompt) + (
    "\"},{\"type\":\"image_url\",\"image_url\":{\"url\":\"data:image/jpeg;base64,"
    )@ + image_b64 + ("\"}}]}],\"temperature\":0,\"top_k\":1}")@
}

pub fn vision_request_body(prompt: &str, image_b64: &str) -> (r: String)
    ensures
        r@ == vision_body_spec(prompt@, image_b64@),
{
    let mut s = String::new();
    s.append(
        "{\"model\":\"allenai/Molmo-7B-D-0924\",\"messages\":[{\"role\":\"user\",\"content\":[{\"type\":\"text\",\"text\":\"",
    );
    append_json_escaped(&mut s, prompt);
    s.append("\"},{\"type\":\"image_url\",\"image_url\":{\"url\":\"data:image/jpeg;base64,");
    s.append(image_b64);
    s.append("\"}}]}],\"temperature\":0,\"top_k\":1}");
    proof {
        assert(s@ =~= vision_body_spec(prompt@, image_b64@));
    }
    s
}

/// A URL on the actuation endpoint: `http://127.0.0.1:<port>/<endpoint>`.
pub open spec fn daemon_url_spec(port: Seq<char>, endpoint: Seq<char>) -> Seq<char> {
    ("http://127.0.0.1:")@ + port + ("/")@ + endpoint
}

pub fn daemon_url(port: &str, endpoint: &str) -> (r: String)
    ensures
        r@ == daemon_url_spec(port@, endpoint@),
{
    let mut s = String::new();
    s.append("http://127.0.0.1:");
    s.append(port);
    s.append("/");
    s.append(endpoint);
    proof {
        assert(s@ =~= daemon_url_spec(port@, endpoint@));
    }
    s
}

/// The chat-completions route under the configured vision base URL.
pub open spec fn vision_endpoint_spec(base: Seq<char>) -> Seq<char> {
    base + ("/v1/chat/completions")@
}

pub fn vision_endpoint(base: &str) -> (r: String)
    ensures
        r@ == vision_endpoint_spec(base@),
{
    let mut s = String::from_str(base);
    s.append("/v1/chat/completions");
    proof {
        assert(s@ =~= vision_endpoint_spec(base@));
    }
    s
}

/// The authorization header value for the vision endpoint.
pub open spec fn bearer_spec(token: Seq<char>) -> Seq<char> {
    ("Bearer ")@ + token
}

pub fn bearer_header(token: &str) -> (r: String)
    ensures
        r@ == bearer_spec(token@),
{
    let mut s = String::new();
    s.append("Bearer ");
    s.append(token);
    proof {
        assert(s@ =~= bearer_spec(token@));
    }
    s
}

/// A diagnostic of a non-success response:
/// `<prefix>Status: <status>, Body: <body>`.
pub open spec fn status_message_spec(prefix: Seq<char>, status: u16, body: Seq<char>) -> Seq<char> {
    prefix + ("Status: ")@ + dec_str(status as nat) + (", Body: ")@ + body
}

pub fn status_message(prefix: &str, status: u16, body: &str) -> (r: String)
    ensures
        r@ == status_message_spec(prefix@, status, body@),
{
    let mut s = String::from_str(prefix);
    s.append("Status: ");
    let st = u64_to_string(status as u64);
    s.append(st.as_str());
    s.append(", Body: ");
    s.append(body);
    proof {
        assert(s@ =~= status_message_spec(prefix@, status, body@));
    }
    s
}

/// `<prefix><suffix>` for the remaining one-piece diagnostics.
pub open spec fn joined_spec(prefix: Seq<char>, suffix: Seq<char>) -> Seq<char> {
    prefix + suffix
}

pub fn joined(prefix: &str, suffix: &str) -> (r: String)
    ensures
        r@ == joined_spec(prefix@, suffix@),
{
    let mut s = String::from_str(prefix);
    s.append(suffix);
    s
}

} // verus!
