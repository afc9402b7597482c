//! The local bridge through which a running game asks for the player's
//! session token: what it answers to a request, and the JVM properties that
//! tell the game where to ask.
//!
//! The caller owns the socket: it reads a request until `request_read_state`
//! says it is complete, sends the text `response_text` gives for the reply of
//! `bridge_reply`, and stops once a reply is `done`.
use vstd::prelude::*;

use crate::minecraft::launch::strs;
use crate::text::{
    chars_of, concat2, concat3, decimal, eq_ignore_ascii_case, eq_ignore_ascii_case_exec,
    first_index, first_index_exec, is_sep_in, lemma_first_index, split_by, split_on,
    split_whitespace, str_eq, str_to_string, string_of, sub_chars, trim, trim_chars, u64_to_string,
    views, words, contains_char,
};
use crate::utils::{hex_digit, hex_encode, hex_lower};
use vstd::utf8::encode_utf8;

verus! {

/// The largest request the bridge reads, in bytes.
pub const MAX_REQUEST_BYTES: usize = 8192;

// ---------------------------------------------------------------------------
// JSON
// ---------------------------------------------------------------------------
/// How `serde_json` writes a character inside a string: `"` and `\` behind a
/// backslash, the control characters with a short escape where JSON has one
/// and as `\u00XX` otherwise, every other character as it is.
pub open spec fn json_escape_char(c: char) -> Seq<char> {
    if c == '"' {
        seq!['\\', '"']
    } else if c == '\\' {
        seq!['\\', '\\']
    } else if c == '\u{8}' {
        seq!['\\', 'b']
    } else if c == '\t' {
        seq!['\\', 't']
    } else if c == '\n' {
        seq!['\\', 'n']
    } else if c == '\u{c}' {
        seq!['\\', 'f']
    } else if c == '\r' {
        seq!['\\', 'r']
    } else if (c as u32) < 0x20 {
        seq!['\\', 'u', '0', '0', hex_digit((c as nat) / 16), hex_digit((c as nat) % 16)]
    } else {
        seq![c]
    }
}

pub open spec fn json_escape(s: Seq<char>) -> Seq<char>
    decreases s.len(),
{
    if s.len() == 0 {
        Seq::empty()
    } else {
        json_escape(s.drop_last()) + json_escape_char(s.last())
    }
}

/// A string as JSON text, as `serde_json` writes a `Value::String` (its
/// `Display`): in double quotes, escaped as `format_escaped_str` in
/// `ser.rs` does.
#[verifier::external_body]
fn json_string(s: &str) -> (r: String)
    ensures
        r@ == "\""@ + json_escape(s@) + "\""@,
{
    serde_json::Value::String(s.to_string()).to_string()
}

/// The body that hands over the session token: `{"sessionToken":"…"}`.
fn session_token_body(token: &str) -> (r: String)
    ensures
        r@ == "{\"sessionToken\":\""@ + json_escape(token@) + "\"}"@,
{
    let quoted = json_string(token);
    let mut r = concat2("{\"sessionToken\":", quoted.as_str());
    r.append("}");
    proof {
        reveal_strlit("\"");
        reveal_strlit("{\"sessionToken\":");
        reveal_strlit("{\"sessionToken\":\"");
        reveal_strlit("\"}");
        reveal_strlit("}");
        assert(r@ =~= "{\"sessionToken\":\""@ + json_escape(token@) + "\"}"@);
    }
    r
}

// ---------------------------------------------------------------------------
// Requests
// ---------------------------------------------------------------------------
pub open spec fn newline() -> spec_fn(char) -> bool {
    is_sep_in(seq!['\n'])
}

/// A line without the `\r` of a `\r\n` ending.
pub open spec fn strip_cr(l: Seq<char>) -> Seq<char> {
    if l.len() > 0 && l.last() == '\r' {
        l.drop_last()
    } else {
        l
    }
}

/// `str::lines`: the lines ended by `\n` or `\r\n`, and the text after the
/// last line ending where there is any.
pub open spec fn text_lines(s: Seq<char>) -> Seq<Seq<char>> {
    let parts = split_by(s, newline());
    let ended = Seq::new((parts.len() - 1) as nat, |i: int| strip_cr(parts[i]));
    if parts.last().len() == 0 {
        ended
    } else {
        ended.push(parts.last())
    }
}

fn lines_exec(s: &Vec<char>) -> (r: Vec<Vec<char>>)
    ensures
        views(r@) == text_lines(s@),
{
    let mut seps: Vec<char> = Vec::new();
    seps.push('\n');
    assert(seps@ =~= seq!['\n']);
    let parts = split_on(s, &seps);
    let ghost pv = views(parts@);
    let n = parts.len();
    let mut out: Vec<Vec<char>> = Vec::new();
    let mut i: usize = 0;
    while i + 1 < n
        invariant
            n == parts.len(),
            n >= 1,
            i + 1 <= n,
            pv == views(parts@),
            pv == split_by(s@, newline()),
            out@.len() == i,
            views(out@) == Seq::new(i as nat, |k: int| strip_cr(pv[k])),
        decreases n - i,
    {
        let p = &parts[i];
        let line = if p.len() > 0 && p[p.len() - 1] == '\r' {
            sub_chars(p, 0, p.len() - 1)
        } else {
            sub_chars(p, 0, p.len())
        };
        assert(line@ =~= strip_cr(pv[i as int]));
        let ghost before = out@;
        let ghost lv = line@;
        out.push(line);
        assert(views(out@) =~= views(before).push(lv));
        assert(views(out@) =~= Seq::new((i + 1) as nat, |k: int| strip_cr(pv[k])));
        i = i + 1;
    }
    let last = &parts[n - 1];
    if last.len() > 0 {
        let ghost before = out@;
        let copy = sub_chars(last, 0, last.len());
        assert(copy@ =~= pv.last());
        out.push(copy);
        assert(views(out@) =~= views(before).push(pv.last()));
    }
    proof {
        assert(text_lines(s@) =~= views(out@));
    }
    out
}

/// The value of the header `name` (in any case) among `lines[i..]`, up to
/// the first blank line: trimmed, from the first line whose part before its
/// first `:`, trimmed, is the name. Lines without `:` are passed over.
pub open spec fn header_value_from(lines: Seq<Seq<char>>, i: int, name: Seq<char>) -> Option<Seq<char>>
    decreases lines.len() - i,
{
    if i < 0 || i >= lines.len() {
        None
    } else if trim(lines[i]).len() == 0 {
        None
    } else if !contains_char(lines[i], ':') {
        header_value_from(lines, i + 1, name)
    } else {
        let k = first_index(lines[i], ':');
        if eq_ignore_ascii_case(trim(lines[i].take(k)), name) {
            Some(trim(lines[i].skip(k + 1)))
        } else {
            header_value_from(lines, i + 1, name)
        }
    }
}

/// The header that carries the access code.
pub open spec fn access_code_header() -> Seq<char> {
    "x-saykocraft-code"@
}

/// A request's method, its path without the query, and its access code:
/// the first two words of its first line and the code header; none where
/// the first line has fewer than two words.
pub open spec fn parse_request(request: Seq<char>) -> Option<(Seq<char>, Seq<char>, Option<Seq<char>>)> {
    let lines = text_lines(request);
    if lines.len() == 0 {
        None
    } else {
        let ws = words(lines[0]);
        if ws.len() < 2 {
            None
        } else {
            Some(
                (
                    ws[0],
                    split_by(ws[1], is_sep_in(seq!['?']))[0],
                    header_value_from(lines, 1, access_code_header()),
                ),
            )
        }
    }
}

fn header_value_exec(lines: &Vec<Vec<char>>, name: &Vec<char>) -> (r: Option<String>)
    ensures
        match header_value_from(views(lines@), 1, name@) {
            Some(v) => r matches Some(x) && x@ == v,
            None => r is None,
        },
{
    let ghost lv = views(lines@);
    let mut i: usize = 1;
    while i < lines.len()
        invariant
            1 <= i,
            lv == views(lines@),
            header_value_from(lv, 1, name@) == header_value_from(lv, i as int, name@),
        decreases lines.len() - i,
    {
        let line = &lines[i];
        assert(line@ == lv[i as int]);
        let t = trim_chars(line);
        if t.len() == 0 {
            return None;
        }
        let k = first_index_exec(line, ':');
        proof {
            lemma_first_index(line@, ':');
        }
        if k < line.len() {
            let before = sub_chars(line, 0, k);
            let key = trim_chars(&before);
            assert(before@ =~= line@.take(k as int));
            if eq_ignore_ascii_case_exec(&key, name) {
                let after = sub_chars(line, k + 1, line.len());
                assert(after@ =~= line@.skip(k + 1));
                let value = trim_chars(&after);
                return Some(string_of(&value));
            }
        }
        i = i + 1;
    }
    None
}

/// Reads the method, path and access code of a request.
pub fn parse_bridge_request(request: &str) -> (r: Option<(String, String, Option<String>)>)
    ensures
        match parse_request(request@) {
            None => r is None,
            Some((m, p, c)) => r matches Some((rm, rp, rc)) && rm@ == m && rp@ == p && match c {
                Some(v) => rc matches Some(x) && x@ == v,
                None => rc is None,
            },
        },
{
    let chars = chars_of(request);
    let lines = lines_exec(&chars);
    if lines.len() == 0 {
        return None;
    }
    assert(lines@[0]@ == text_lines(request@)[0]);
    let ws = split_whitespace(&lines[0]);
    if ws.len() < 2 {
        return None;
    }
    let mut q: Vec<char> = Vec::new();
    q.push('?');
    assert(q@ =~= seq!['?']);
    let pieces = split_on(&ws[1], &q);
    let method = string_of(&ws[0]);
    let path = string_of(&pieces[0]);
    let name = chars_of("x-saykocraft-code");
    let code = header_value_exec(&lines, &name);
    Some((method, path, code))
}

/// Where a read request stands after more bytes came: over the size limit,
/// complete (its header ends with an empty line), or not yet complete.
#[derive(Debug)]
pub enum RequestRead {
    TooLarge,
    Complete,
    Incomplete,
}

pub open spec fn has_header_end(b: Seq<u8>) -> bool {
    exists|i: int|
        0 <= i && i + 4 <= b.len() && #[trigger] b[i] == 13 && b[i + 1] == 10 && b[i + 2] == 13
            && b[i + 3] == 10
}

pub fn request_read_state(request: &Vec<u8>) -> (r: RequestRead)
    ensures
        request@.len() > MAX_REQUEST_BYTES ==> r is TooLarge,
        request@.len() <= MAX_REQUEST_BYTES && has_header_end(request@) ==> r is Complete,
        request@.len() <= MAX_REQUEST_BYTES && !has_header_end(request@) ==> r is Incomplete,
{
    if request.len() > MAX_REQUEST_BYTES {
        return RequestRead::TooLarge;
    }
    let mut i: usize = 0;
    while i + 4 <= request.len()
        invariant
            request.len() <= MAX_REQUEST_BYTES,
            i <= request.len(),
            forall|k: int|
                0 <= k < i && k + 4 <= request@.len() ==> !(#[trigger] request@[k] == 13 && request@[k
                    + 1] == 10 && request@[k + 2] == 13 && request@[k + 3] == 10),
        decreases request.len() - i,
    {
        if request[i] == 13 && request[i + 1] == 10 && request[i + 2] == 13 && request[i + 3] == 10 {
            return RequestRead::Complete;
        }
        i = i + 1;
    }
    RequestRead::Incomplete
}

// ---------------------------------------------------------------------------
// Replies
// ---------------------------------------------------------------------------
/// What the bridge answers, and whether it stops after answering.
#[derive(Debug)]
pub struct BridgeReply {
    pub status: u16,
    pub reason: String,
    pub content_type: String,
    pub body: String,
    pub done: bool,
}

pub type ReplyView = (u16, Seq<char>, Seq<char>, Seq<char>, bool);

impl View for BridgeReply {
    type V = ReplyView;

    open spec fn view(&self) -> ReplyView {
        (self.status, self.reason@, self.content_type@, self.body@, self.done)
    }
}

/// The answer to `request`: the session token, as JSON, to a `GET` of
/// `/session-token` that carries the expected access code, which ends the
/// bridge; an error status to anything else.
pub open spec fn reply_to(request: Seq<char>, expected_code: Seq<char>, token: Seq<char>) -> ReplyView {
    match parse_request(request) {
        None => (400, "Bad Request"@, "text/plain"@, "bad request"@, false),
        Some((method, path, code)) => if method != "GET"@ {
            (405, "Method Not Allowed"@, "text/plain"@, "method not allowed"@, false)
        } else if path != "/session-token"@ {
            (404, "Not Found"@, "text/plain"@, "not found"@, false)
        } else if code != Some(expected_code) {
            (401, "Unauthorized"@, "text/plain"@, "unauthorized"@, false)
        } else {
            (
                200,
                "OK"@,
                "application/json"@,
                "{\"sessionToken\":\""@ + json_escape(token) + "\"}"@,
                true,
            )
        },
    }
}

fn reply(status: u16, reason: &str, content_type: &str, body: String, done: bool) -> (r: BridgeReply)
    ensures
        r@ == (status, reason@, content_type@, body@, done),
{
    BridgeReply {
        status,
        reason: str_to_string(reason),
        content_type: str_to_string(content_type),
        body,
        done,
    }
}

pub fn bridge_reply(request: &str, expected_access_code: &str, session_token: &str) -> (r: BridgeReply)
    ensures
        r@ == reply_to(request@, expected_access_code@, session_token@),
{
    let (method, path, code) = match parse_bridge_request(request) {
        None => return reply(400, "Bad Request", "text/plain", str_to_string("bad request"), false),
        Some(parts) => parts,
    };
    if !str_eq(method.as_str(), "GET") {
        return reply(
            405,
            "Method Not Allowed",
            "text/plain",
            str_to_string("method not allowed"),
            false,
        );
    }
    if !str_eq(path.as_str(), "/session-token") {
        return reply(404, "Not Found", "text/plain", str_to_string("not found"), false);
    }
    let authorized = match &code {
        Some(c) => str_eq(c.as_str(), expected_access_code),
        None => false,
    };
    if !authorized {
        return reply(401, "Unauthorized", "text/plain", str_to_string("unauthorized"), false);
    }
    reply(200, "OK", "application/json", session_token_body(session_token), true)
}

/// The HTTP/1.1 response text of a reply, its body's length in bytes.
pub open spec fn response_text_of(status: u16, reason: Seq<char>, content_type: Seq<char>, body: Seq<char>) -> Seq<char> {
    "HTTP/1.1 "@ + decimal(status as nat) + " "@ + reason + "\r\nContent-Type: "@ + content_type
        + "\r\nCache-Control: no-store\r\nContent-Length: "@ + decimal(encode_utf8(body).len())
        + "\r\nConnection: close\r\n\r\n"@ + body
}

pub fn response_text(status: u16, reason: &str, content_type: &str, body: &str) -> (r: String)
    ensures
        r@ == response_text_of(status, reason@, content_type@, body@),
{
    let code = u64_to_string(status as u64);
    let length = u64_to_string(body.as_bytes().len() as u64);
    let mut r = concat3("HTTP/1.1 ", code.as_str(), " ");
    r.append(reason);
    r.append("\r\nContent-Type: ");
    r.append(content_type);
    r.append("\r\nCache-Control: no-store\r\nContent-Length: ");
    r.append(length.as_str());
    r.append("\r\nConnection: close\r\n\r\n");
    r.append(body);
    r
}

// ---------------------------------------------------------------------------
// The game's side
// ---------------------------------------------------------------------------
/// The JVM properties that tell the game where the bridge listens and which
/// code it asks for.
pub fn bridge_jvm_args(port: u16, access_code: &str) -> (r: Vec<String>)
    ensures
        strs(r@) == seq![
            "-Dsaykocraft.bridge.host=127.0.0.1"@,
            "-Dsaykocraft.bridge.port="@ + decimal(port as nat),
            "-Dsaykocraft.bridge.code="@ + access_code@,
            "-Dsaykocraft.bridge.path=/session-token"@,
        ],
{
    let p = u64_to_string(port as u64);
    let mut r: Vec<String> = Vec::new();
    r.push(str_to_string("-Dsaykocraft.bridge.host=127.0.0.1"));
    r.push(concat2("-Dsaykocraft.bridge.port=", p.as_str()));
    r.push(concat2("-Dsaykocraft.bridge.code=", access_code));
    r.push(str_to_string("-Dsaykocraft.bridge.path=/session-token"));
    assert(strs(r@) =~= seq![
        "-Dsaykocraft.bridge.host=127.0.0.1"@,
        "-Dsaykocraft.bridge.port="@ + decimal(port as nat),
        "-Dsaykocraft.bridge.code="@ + access_code@,
        "-Dsaykocraft.bridge.path=/session-token"@,
    ]);
    r
}

#[verifier::external_type_specification]
#[verifier::external_body]
pub struct ExRandomError(getrandom::Error);

/// `getrandom::fill`: fills `dest` with bytes from the system's random
/// source, or fails. Which bytes come is chance: nothing is stated of them
/// but that their number stays.
#[verifier::external_body]
fn fill_random(dest: &mut Vec<u8>) -> (r: Result<(), getrandom::Error>)
    ensures
        final(dest)@.len() == old(dest)@.len(),
{
    getrandom::fill(dest.as_mut_slice())
}

/// The text of a `getrandom` error (its `Display`), which the crate words
/// from the OS error or its own description; it is not stated here.
#[verifier::external_body]
fn random_error_text(error: &getrandom::Error) -> (r: String) {
    error.to_string()
}

/// The access code made of the random bytes `filled`, or the error of a
/// failed fill, whose text `filled` carries: the bytes in lower-case
/// hexadecimal, or the error text behind its prefix.
pub fn access_code_from(filled: Result<Vec<u8>, String>) -> (r: Result<String, String>)
    ensures
        filled matches Ok(b) ==> (r matches Ok(c) && c@ == hex_lower(b@)),
        filled matches Err(t) ==> (r matches Err(m) && m@ == "failed to generate session bridge access code: "@
            + t@),
{
    match filled {
        Ok(bytes) => Ok(hex_encode(bytes.as_slice())),
        Err(text) => Err(concat2("failed to generate session bridge access code: ", text.as_str())),
    }
}

/// A fresh access code: 32 bytes from the system's random source, in
/// lower-case hexadecimal.
pub fn generate_access_code() -> (r: Result<String, String>)
    ensures
        r matches Ok(code) ==> exists|b: Seq<u8>| b.len() == 32 && code@ == hex_lower(b),
        r matches Err(m) ==> m@.len() >= "failed to generate session bridge access code: "@.len()
            && m@.take("failed to generate session bridge access code: "@.len() as int)
            == "failed to generate session bridge access code: "@,
{
    let mut bytes: Vec<u8> = Vec::new();
    let mut i: usize = 0;
    while i < 32
        invariant
            i <= 32,
            bytes@.len() == i,
        decreases 32 - i,
    {
        bytes.push(0);
        i = i + 1;
    }
    let filled = match fill_random(&mut bytes) {
        Ok(()) => Ok(bytes),
        Err(e) => Err(random_error_text(&e)),
    };
    let ghost given = filled;
    let r = access_code_from(filled);
    let ghost out = r;
    proof {
        if let Ok(b) = given {
            assert(b@.len() == 32);
        }
        if let Err(m) = out {
            assert(m@.take("failed to generate session bridge access code: "@.len() as int)
                =~= "failed to generate session bridge access code: "@);
        }
    }
    r
}

/// The bridge hands out the session token, and stops, only for a `GET` of
/// `/session-token` that carries the expected access code; every other
/// request gets an error status and a body without the token.
pub proof fn law_token_only_for_the_code(request: Seq<char>, expected_code: Seq<char>, token: Seq<char>)
    ensures
        reply_to(request, expected_code, token).4 <==> reply_to(request, expected_code, token).0 == 200,
        reply_to(request, expected_code, token).4 ==> (parse_request(request) matches Some((m, p, c))
            && m == "GET"@ && p == "/session-token"@ && c == Some(expected_code)),
        !reply_to(request, expected_code, token).4 ==> reply_to(request, expected_code, token).2
            == "text/plain"@,
{
}

} // verus!
