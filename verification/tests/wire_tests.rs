use room_server::mvc::header::Header;
use room_server::mvc::response::Response;
use room_server::server::{datagram_body, outgoing_is_quit, replies, Handled, Reply};
use room_server::text::trim_end;

#[test]
fn datagram_body_decodes_utf8() {
    assert_eq!(datagram_body(b""), None);
    assert_eq!(datagram_body(b"{\"a\":1}"), Some("{\"a\":1}".to_string()));
    assert_eq!(datagram_body("héllo ✓".as_bytes()), Some("héllo ✓".to_string()));
}

#[test]
fn datagram_body_of_invalid_utf8_is_empty() {
    assert_eq!(datagram_body(&[0xff, 0x41]), Some(String::new()));
    assert_eq!(datagram_body(&[0xc0, 0x80]), Some(String::new()));
    assert_eq!(datagram_body(&[0xed, 0xa0, 0x80]), Some(String::new()));
    assert_eq!(datagram_body(&[0xe2, 0x9c]), Some(String::new()));
}

#[test]
fn outgoing_quit_code() {
    assert!(outgoing_is_quit(":q"));
    assert!(!outgoing_is_quit(":q "));
    assert!(!outgoing_is_quit("{ \"status\": ok }"));
}

#[test]
fn trim_end_cuts_what_std_cuts() {
    let spaces = [
        '\u{9}', '\u{a}', '\u{b}', '\u{c}', '\u{d}', ' ', '\u{85}', '\u{a0}', '\u{1680}', '\u{2000}', '\u{2005}',
        '\u{200a}', '\u{2028}', '\u{2029}', '\u{202f}', '\u{205f}', '\u{3000}',
    ];
    let others = ['x', '\u{8}', '\u{e}', '\u{180e}', '\u{200b}', '\u{feff}', '\u{2060}', '\u{1f}', '\u{7f}'];
    for c in spaces.iter().chain(others.iter()) {
        let s = format!("a{}{}b{}{}", c, c, c, c);
        assert_eq!(trim_end(&s), s.trim_end(), "char {:?}", c);
    }
    assert_eq!(trim_end(""), "");
    assert_eq!(trim_end(" \t\n"), "");
    assert_eq!(trim_end("a b \u{3000}"), "a b");
}

fn response(status: &str) -> Response {
    let mut header = Header::new();
    header.insert("status_code".to_string(), status.to_string());
    Response { header, payload: String::new() }
}

#[test]
fn replies_in_order() {
    let r = replies(Handled { middleware_error: Some("m".to_string()), answer: Some(Err("c".to_string())) });
    assert_eq!(r.len(), 2);
    assert!(matches!(&r[0], Reply::Refused(e) if e == "m"));
    assert!(matches!(&r[1], Reply::Failed(e) if e == "c"));
    let r = replies(Handled { middleware_error: None, answer: Some(Ok(response("ok"))) });
    assert_eq!(r.len(), 1);
    assert!(matches!(&r[0], Reply::Answer(resp) if resp.header.get("status_code").map(|s| s.as_str()) == Some("ok")));
    let r = replies(Handled { middleware_error: Some("m".to_string()), answer: None });
    assert_eq!(r.len(), 1);
    let r = replies(Handled { middleware_error: None, answer: None });
    assert!(r.is_empty());
}
