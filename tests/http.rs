use mini_server::http::{
    greeting_name, is_space_byte, reply, request_path, response, response_body, REQUEST_LIMIT,
};

fn text(b: Vec<u8>) -> String {
    String::from_utf8(b).unwrap()
}

#[test]
fn hello_ada_end_to_end_reply() {
    let r = text(reply(b"GET /hello/Ada HTTP/1.1\r\n\r\n"));
    let (head, body) = r.split_once("\r\n\r\n").unwrap();
    assert_eq!(body, "{\"message\":\"Hello, Ada!\"}");
    assert!(head.starts_with("HTTP/1.1 200 OK\r\n"));
    assert!(head.contains("Content-Type: application/json"));
    assert!(head.contains(&format!("Content-Length: {}", body.len())));
    assert_eq!(
        r,
        "HTTP/1.1 200 OK\r\nContent-Type: application/json\r\nContent-Length: 25\r\n\r\n{\"message\":\"Hello, Ada!\"}"
    );
}

#[test]
fn request_line_without_line_end() {
    assert_eq!(text(greeting_name(b"GET /hello/Ada HTTP/1.1")), "Ada");
    assert_eq!(text(greeting_name(b"GET /hello/Ada")), "Ada");
}

#[test]
fn malformed_request_greets_world() {
    let r = text(reply(b"garbage"));
    assert!(r.ends_with("\r\n\r\n{\"message\":\"Hello, world!\"}"));
    assert!(r.contains("Content-Length: 27\r\n"));
}

#[test]
fn empty_request_greets_world() {
    assert_eq!(text(greeting_name(b"")), "world");
    assert_eq!(text(greeting_name(b"   \r\n ")), "world");
}

#[test]
fn path_without_prefix_greets_world() {
    assert_eq!(text(greeting_name(b"GET /goodbye/Ada HTTP/1.1")), "world");
    assert_eq!(text(greeting_name(b"GET Ada HTTP/1.1")), "world");
    assert_eq!(text(greeting_name(b"GET /hello HTTP/1.1")), "world");
}

#[test]
fn empty_segment_greets_world() {
    assert_eq!(text(greeting_name(b"GET /hello/ HTTP/1.1")), "world");
    assert_eq!(text(greeting_name(b"GET /hello//x HTTP/1.1")), "world");
}

#[test]
fn segment_ends_at_slash() {
    assert_eq!(text(greeting_name(b"GET /hello/Bob/extra HTTP/1.1")), "Bob");
}

#[test]
fn repeated_prefix_is_stripped() {
    assert_eq!(text(greeting_name(b"GET /hello//hello/Eve HTTP/1.1")), "Eve");
}

#[test]
fn tokens_split_on_any_ascii_whitespace() {
    assert_eq!(text(greeting_name(b"\t GET\x0b\x0c/hello/Cy\rHTTP")), "Cy");
}

#[test]
fn second_token_is_the_path() {
    assert_eq!(request_path(b"  GET   /a/b  HTTP/1.1"), Some(b"/a/b".to_vec()));
    assert_eq!(request_path(b"GET"), None);
    assert_eq!(request_path(b"GET   "), None);
    assert_eq!(request_path(b""), None);
}

#[test]
fn whitespace_bytes() {
    for b in [b' ', b'\t', b'\n', 0x0b, 0x0c, b'\r'] {
        assert!(is_space_byte(b));
    }
    for b in [b'a', b'/', 0u8, 0x0e, 0x1f, 0x85, 0xa0] {
        assert!(!is_space_byte(b));
    }
}

#[test]
fn body_shape() {
    assert_eq!(text(response_body(b"x")), "{\"message\":\"Hello, x!\"}");
    assert_eq!(text(response_body(b"")), "{\"message\":\"Hello, !\"}");
}

#[test]
fn content_length_counts_body_bytes() {
    let name = vec![b'n'; 100];
    let r = text(response(&name));
    let body_len = 22 + 100;
    assert!(r.contains(&format!("Content-Length: {}\r\n", body_len)));
    assert!(r.contains("Content-Length: 122\r\n"));
    let short = text(response(b""));
    assert!(short.contains("Content-Length: 22\r\n"));
    let one_digit = text(response(b"ab"));
    assert!(one_digit.contains("Content-Length: 24\r\n"));
}

#[test]
fn utf8_name_bytes_are_kept() {
    let r = text(greeting_name("GET /hello/Zoë HTTP/1.1".as_bytes()));
    assert_eq!(r, "Zoë");
    let body = response_body("Zoë".as_bytes());
    assert_eq!(body.len(), 22 + 4);
}

#[test]
fn request_limit_is_one_kibibyte() {
    assert_eq!(REQUEST_LIMIT, 1024);
}
