use h2dispatch::headers::{translate_request, BodySize, Header, RequestHead};

fn header(name: &str, value: &str) -> Header {
    Header { name: name.to_string(), value: value.as_bytes().to_vec() }
}

fn head(method: &str, headers: Vec<Header>) -> RequestHead {
    RequestHead { method: method.to_string(), uri: "https://example.com/x".to_string(), headers }
}

fn pairs(hs: &[Header]) -> Vec<(String, String)> {
    hs.iter()
        .map(|h| (h.name.clone(), String::from_utf8(h.value.clone()).unwrap()))
        .collect()
}

#[test]
fn empty_body_sends_zero_length() {
    let h = head("GET", vec![header("accept", "*/*")]);
    let r = translate_request(&h, &None, BodySize::Empty);
    assert!(r.eof);
    assert_eq!(r.method, "GET");
    assert_eq!(r.uri, "https://example.com/x");
    assert_eq!(
        pairs(&r.headers),
        vec![("content-length".to_string(), "0".to_string()), ("accept".to_string(), "*/*".to_string())]
    );
}

#[test]
fn connection_fields_are_dropped() {
    let h = head(
        "POST",
        vec![header("connection", "keep-alive"), header("x-a", "1"), header("transfer-encoding", "chunked")],
    );
    let extra = Some(vec![header("connection", "close"), header("transfer-encoding", "gzip")]);
    for size in [BodySize::NoBody, BodySize::Empty, BodySize::Sized(3), BodySize::Stream] {
        let r = translate_request(&h, &extra, size);
        for f in &r.headers {
            assert_ne!(f.name, "connection");
            assert_ne!(f.name, "transfer-encoding");
        }
        assert!(r.headers.iter().any(|f| f.name == "x-a"));
    }
}

#[test]
fn sized_body_renders_decimal_length() {
    let h = head("PUT", vec![header("content-length", "99")]);
    let r = translate_request(&h, &None, BodySize::Sized(1234));
    assert!(!r.eof);
    assert_eq!(pairs(&r.headers), vec![("content-length".to_string(), "1234".to_string())]);
    let r = translate_request(&h, &None, BodySize::Sized(u64::MAX));
    assert_eq!(pairs(&r.headers), vec![("content-length".to_string(), u64::MAX.to_string())]);
}

#[test]
fn sized_zero_has_no_body_phase() {
    let h = head("PUT", vec![]);
    let r = translate_request(&h, &None, BodySize::Sized(0));
    assert!(r.eof);
    assert_eq!(pairs(&r.headers), vec![("content-length".to_string(), "0".to_string())]);
}

#[test]
fn no_body_drops_caller_length() {
    let h = head("GET", vec![header("content-length", "5"), header("x-b", "2")]);
    let r = translate_request(&h, &None, BodySize::NoBody);
    assert!(r.eof);
    assert_eq!(pairs(&r.headers), vec![("x-b".to_string(), "2".to_string())]);
}

#[test]
fn stream_keeps_caller_length_and_adds_none() {
    let h = head("POST", vec![header("content-length", "5")]);
    let r = translate_request(&h, &None, BodySize::Stream);
    assert!(!r.eof);
    assert_eq!(pairs(&r.headers), vec![("content-length".to_string(), "5".to_string())]);
    let h = head("POST", vec![header("x-c", "3")]);
    let r = translate_request(&h, &None, BodySize::Stream);
    assert_eq!(pairs(&r.headers), vec![("x-c".to_string(), "3".to_string())]);
}

#[test]
fn overlay_wins_and_comes_last() {
    let h = head("GET", vec![header("a", "1"), header("b", "2"), header("c", "3"), header("b", "4")]);
    let extra = Some(vec![header("b", "overlay"), header("d", "5")]);
    let r = translate_request(&h, &extra, BodySize::NoBody);
    assert_eq!(
        pairs(&r.headers),
        vec![
            ("a".to_string(), "1".to_string()),
            ("c".to_string(), "3".to_string()),
            ("b".to_string(), "overlay".to_string()),
            ("d".to_string(), "5".to_string()),
        ]
    );
}
