use hyperion_vm::http::{push_decimal, EngineType, HttpResponse};

#[test]
fn engine_type_names_select_engines() {
    assert_eq!(EngineType::from_str("vm"), EngineType::Vm);
    assert_eq!(EngineType::from_str("VM"), EngineType::Vm);
    assert_eq!(EngineType::from_str("Hyperion"), EngineType::Vm);
    assert_eq!(EngineType::from_str("php84"), EngineType::Php84);
    assert_eq!(EngineType::from_str("PHP"), EngineType::Php84);
    assert_eq!(EngineType::from_str("zend"), EngineType::Php84);
    assert_eq!(EngineType::from_str("C"), EngineType::Php84);
    assert_eq!(EngineType::from_str("auto"), EngineType::Auto);
    assert_eq!(EngineType::from_str(""), EngineType::Auto);
    assert_eq!(EngineType::from_str("vm "), EngineType::Auto);
}

#[test]
fn engine_type_lowercases_unicode() {
    // The lower-casing is Unicode's, not only ASCII's.
    assert_eq!(EngineType::from_str("ZEND"), EngineType::Php84);
    assert_eq!(EngineType::from_str("HYPERİON"), EngineType::Auto);
}

#[test]
fn http_response_new_keeps_its_parts() {
    let r = HttpResponse::new(404, "Not Found", vec![("X-A".to_string(), "1".to_string())], b"nope".to_vec());
    assert_eq!(r.status_code, 404);
    assert_eq!(r.status_text, "Not Found");
    assert_eq!(r.headers, vec![("X-A".to_string(), "1".to_string())]);
    assert_eq!(r.body, b"nope".to_vec());
}

#[test]
fn to_http_bytes_adds_missing_defaults() {
    let r = HttpResponse::new(200, "OK", vec![("Content-Type".to_string(), "text/html".to_string())], b"hello".to_vec());
    let bytes = r.to_http_bytes();
    let expected = "HTTP/1.1 200 OK\r\nContent-Type: text/html\r\nContent-Length: 5\r\nServer: PHP-Hyperion/1.0.0 (PHP 8.4 Hybrid SAPI)\r\nConnection: close\r\n\r\nhello";
    assert_eq!(String::from_utf8(bytes).unwrap(), expected);
}

#[test]
fn to_http_bytes_skips_status_and_keeps_given_headers() {
    let r = HttpResponse::new(
        302,
        "Found",
        vec![
            ("Status".to_string(), "302 Found".to_string()),
            ("content-length".to_string(), "0".to_string()),
            ("SERVER".to_string(), "custom".to_string()),
            ("Connection".to_string(), "keep-alive".to_string()),
            ("Location".to_string(), "/x".to_string()),
        ],
        Vec::new(),
    );
    let expected = "HTTP/1.1 302 Found\r\ncontent-length: 0\r\nSERVER: custom\r\nConnection: keep-alive\r\nLocation: /x\r\n\r\n";
    assert_eq!(String::from_utf8(r.to_http_bytes()).unwrap(), expected);
}

#[test]
fn to_http_bytes_of_an_empty_response() {
    let r = HttpResponse::new(204, "", Vec::new(), Vec::new());
    let expected = "HTTP/1.1 204 \r\nContent-Length: 0\r\nServer: PHP-Hyperion/1.0.0 (PHP 8.4 Hybrid SAPI)\r\nConnection: close\r\n\r\n";
    assert_eq!(String::from_utf8(r.to_http_bytes()).unwrap(), expected);
}

#[test]
fn push_decimal_writes_digits() {
    let mut out = b"n=".to_vec();
    push_decimal(&mut out, 0);
    push_decimal(&mut out, 1234567890);
    assert_eq!(out, b"n=01234567890".to_vec());
    let mut big = Vec::new();
    push_decimal(&mut big, u64::MAX);
    assert_eq!(big, b"18446744073709551615".to_vec());
}
