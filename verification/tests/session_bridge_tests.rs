use saykocraft_launcher::minecraft::session_bridge::{
    access_code_from, bridge_jvm_args, bridge_reply, generate_access_code, parse_bridge_request,
    request_read_state, response_text, RequestRead,
};

const CODE: &str = "c0de";

#[test]
fn requests_are_read_by_their_first_line_and_code_header() {
    let r = parse_bridge_request("GET /session-token?x=1 HTTP/1.1\r\nHost: a\r\nX-SayKOCraft-Code:  c0de \r\n\r\n")
        .unwrap();
    assert_eq!(r.0, "GET");
    assert_eq!(r.1, "/session-token");
    assert_eq!(r.2.as_deref(), Some("c0de"));
    let r = parse_bridge_request("POST /x HTTP/1.1\r\n\r\nx-saykocraft-code: late\r\n").unwrap();
    assert_eq!(r.0, "POST");
    assert_eq!(r.2, None);
    assert!(parse_bridge_request("GET\r\n\r\n").is_none());
    assert!(parse_bridge_request("").is_none());
    let r = parse_bridge_request("GET /a\nno colon here\nx-saykocraft-code:k").unwrap();
    assert_eq!(r.2.as_deref(), Some("k"));
}

#[test]
fn the_token_goes_only_to_the_holder_of_the_code() {
    let ok = bridge_reply("GET /session-token HTTP/1.1\r\nx-saykocraft-code: c0de\r\n\r\n", CODE, "tok");
    assert_eq!(ok.status, 200);
    assert_eq!(ok.reason, "OK");
    assert_eq!(ok.content_type, "application/json");
    assert_eq!(ok.body, "{\"sessionToken\":\"tok\"}");
    assert!(ok.done);
    let wrong = bridge_reply("GET /session-token HTTP/1.1\r\nx-saykocraft-code: nope\r\n\r\n", CODE, "tok");
    assert_eq!((wrong.status, wrong.body.as_str(), wrong.done), (401, "unauthorized", false));
    let missing = bridge_reply("GET /session-token HTTP/1.1\r\n\r\n", CODE, "tok");
    assert_eq!(missing.status, 401);
    let post = bridge_reply("POST /session-token HTTP/1.1\r\nx-saykocraft-code: c0de\r\n\r\n", CODE, "tok");
    assert_eq!((post.status, post.reason.as_str()), (405, "Method Not Allowed"));
    let path = bridge_reply("GET /other HTTP/1.1\r\nx-saykocraft-code: c0de\r\n\r\n", CODE, "tok");
    assert_eq!((path.status, path.body.as_str()), (404, "not found"));
    let bad = bridge_reply("nonsense", CODE, "tok");
    assert_eq!((bad.status, bad.body.as_str(), bad.content_type.as_str()), (400, "bad request", "text/plain"));
}

#[test]
fn the_token_is_escaped_as_json() {
    let r = bridge_reply(
        "GET /session-token HTTP/1.1\r\nx-saykocraft-code: c0de\r\n\r\n",
        CODE,
        "a\"b\\c\nd\u{1}",
    );
    assert_eq!(r.body, "{\"sessionToken\":\"a\\\"b\\\\c\\nd\\u0001\"}");
}

#[test]
fn responses_are_http() {
    assert_eq!(
        response_text(200, "OK", "application/json", "{\"a\":\"é\"}"),
        "HTTP/1.1 200 OK\r\nContent-Type: application/json\r\nCache-Control: no-store\r\nContent-Length: 10\r\nConnection: close\r\n\r\n{\"a\":\"é\"}"
    );
}

#[test]
fn reading_stops_at_the_header_end_or_the_limit() {
    assert!(matches!(request_read_state(&b"GET / HTTP/1.1\r\n".to_vec()), RequestRead::Incomplete));
    assert!(matches!(request_read_state(&b"GET / HTTP/1.1\r\n\r\n".to_vec()), RequestRead::Complete));
    assert!(matches!(request_read_state(&vec![b'a'; 8193]), RequestRead::TooLarge));
    assert!(matches!(request_read_state(&vec![b'a'; 8192]), RequestRead::Incomplete));
}

#[test]
fn the_game_is_told_where_to_ask() {
    assert_eq!(
        bridge_jvm_args(51234, "c0de"),
        vec![
            "-Dsaykocraft.bridge.host=127.0.0.1",
            "-Dsaykocraft.bridge.port=51234",
            "-Dsaykocraft.bridge.code=c0de",
            "-Dsaykocraft.bridge.path=/session-token",
        ]
    );
}

#[test]
fn access_codes_are_fresh_hex() {
    let a = generate_access_code().unwrap();
    let b = generate_access_code().unwrap();
    assert_eq!(a.len(), 64);
    assert!(a.chars().all(|c| c.is_ascii_hexdigit() && !c.is_ascii_uppercase()));
    assert_ne!(a, b);
}

#[test]
fn access_codes_are_the_hex_of_the_filled_bytes() {
    assert_eq!(access_code_from(Ok(vec![0x00, 0xab, 0x7f])), Ok("00ab7f".to_string()));
    assert_eq!(
        access_code_from(Err("no entropy".to_string())),
        Err("failed to generate session bridge access code: no entropy".to_string())
    );
}
