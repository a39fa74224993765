use hyperion_vm::sapi::{cgi_environment, content_requires_php84, file_path_marks_wordpress, parse_cgi_output};

fn s(x: &str) -> String {
    x.to_string()
}

#[test]
fn cgi_output_with_status_header() {
    let r = parse_cgi_output(b"Status: 404 Not Found\r\nContent-Type: text/html\r\n\r\n<h1>missing</h1>", b"");
    assert_eq!(r.status_code, 404);
    assert_eq!(r.status_text, "Not Found");
    assert_eq!(r.headers, vec![(s("Content-Type"), s("text/html"))]);
    assert_eq!(r.body, b"<h1>missing</h1>".to_vec());
}

#[test]
fn cgi_output_defaults_to_200_ok() {
    let r = parse_cgi_output(b"X-Powered-By: PHP/8.4\r\n\r\nhi", b"");
    assert_eq!(r.status_code, 200);
    assert_eq!(r.status_text, "OK");
    assert_eq!(r.headers, vec![(s("X-Powered-By"), s("PHP/8.4"))]);
    assert_eq!(r.body, b"hi".to_vec());
}

#[test]
fn cgi_output_with_bare_newline_separator() {
    let r = parse_cgi_output(b"Content-Type: text/plain\n\nbody\n\nmore", b"");
    assert_eq!(r.headers, vec![(s("Content-Type"), s("text/plain"))]);
    assert_eq!(r.body, b"body\n\nmore".to_vec());
}

#[test]
fn cgi_output_without_separator_is_all_body() {
    let r = parse_cgi_output(b"just text", b"");
    assert_eq!(r.status_code, 200);
    assert!(r.headers.is_empty());
    assert_eq!(r.body, b"just text".to_vec());
}

#[test]
fn cgi_status_with_code_only_keeps_text() {
    let r = parse_cgi_output(b"Status: 301\r\nLocation: /new\r\n\r\n", b"");
    assert_eq!(r.status_code, 301);
    assert_eq!(r.status_text, "OK");
    assert_eq!(r.headers, vec![(s("Location"), s("/new"))]);
}

#[test]
fn cgi_status_that_is_not_a_number_is_ignored() {
    let r = parse_cgi_output(b"status: abc def\r\n\r\nx", b"");
    assert_eq!(r.status_code, 200);
    assert_eq!(r.status_text, "OK");
    assert!(r.headers.is_empty());
}

#[test]
fn cgi_header_lines_are_trimmed_and_lines_without_colon_dropped() {
    let r = parse_cgi_output(b"  X-A :  1  \r\nnot a header\r\n\r\nb", b"");
    assert_eq!(r.headers, vec![(s("X-A"), s("1"))]);
}

#[test]
fn cgi_errors_without_body_become_500() {
    let r = parse_cgi_output(b"Content-Type: text/html\r\n\r\n", b"PHP Fatal error");
    assert_eq!(r.status_code, 500);
    assert_eq!(r.status_text, "Internal Server Error");
    assert_eq!(
        r.headers,
        vec![(s("Content-Type"), s("text/html")), (s("Content-Type"), s("text/plain; charset=utf-8"))]
    );
    assert_eq!(r.body, b"PHP Fatal error".to_vec());
}

#[test]
fn cgi_errors_with_a_body_are_kept_quiet() {
    let r = parse_cgi_output(b"\r\n\r\npage", b"warning");
    assert_eq!(r.status_code, 200);
    assert_eq!(r.body, b"page".to_vec());
    let r2 = parse_cgi_output(b"Status: 404 Not Found\r\n\r\n", b"warning");
    assert_eq!(r2.status_code, 404);
    assert!(r2.body.is_empty());
}

#[test]
fn cgi_environment_for_a_get_request() {
    let headers = vec![(s("Host"), s("example.com")), (s("Content-Type"), s("text/plain")), (s("x-trace-id"), s("7"))];
    let env = cgi_environment("GET", "/index.php?a=1", "a=1", "/srv", &headers, 0, None, None);
    let expected = vec![
        (s("REDIRECT_STATUS"), s("200")),
        (s("REQUEST_METHOD"), s("GET")),
        (s("SCRIPT_NAME"), s("/index.php")),
        (s("DOCUMENT_ROOT"), s("/srv")),
        (s("REQUEST_URI"), s("/index.php?a=1")),
        (s("QUERY_STRING"), s("a=1")),
        (s("SERVER_SOFTWARE"), s("PHP-Hyperion/1.0.0 (PHP 8.4 Hybrid SAPI)")),
        (s("SERVER_PROTOCOL"), s("HTTP/1.1")),
        (s("GATEWAY_INTERFACE"), s("CGI/1.1")),
        (s("REMOTE_ADDR"), s("127.0.0.1")),
        (s("REMOTE_PORT"), s("80")),
        (s("SERVER_NAME"), s("localhost")),
        (s("SERVER_PORT"), s("8000")),
        (s("HTTP_HOST"), s("example.com")),
        (s("CONTENT_TYPE"), s("text/plain")),
        (s("HTTP_X_TRACE_ID"), s("7")),
    ];
    assert_eq!(env, expected);
}

#[test]
fn cgi_environment_splits_addresses_and_sets_body_length() {
    let env = cgi_environment("POST", "/f", "", "", &Vec::new(), 12, Some("10.0.0.2:5555"), Some("myhost"));
    assert!(env.contains(&(s("REMOTE_ADDR"), s("10.0.0.2"))));
    assert!(env.contains(&(s("REMOTE_PORT"), s("5555"))));
    assert!(env.contains(&(s("SERVER_NAME"), s("myhost"))));
    assert!(env.contains(&(s("SERVER_PORT"), s("80"))));
    assert_eq!(env.last(), Some(&(s("CONTENT_LENGTH"), s("12"))));
    let env2 = cgi_environment("GET", "/", "", "", &Vec::new(), 0, Some("::1"), Some("h:81"));
    assert!(env2.contains(&(s("REMOTE_ADDR"), s(""))));
    assert!(env2.contains(&(s("REMOTE_PORT"), s(":1"))));
    assert!(env2.contains(&(s("SERVER_PORT"), s("81"))));
}

#[test]
fn php84_markers_in_source() {
    assert!(content_requires_php84("public string $name { get => $this->n; }"));
    assert!(content_requires_php84("$x = array_find($a, fn($v) => $v);"));
    assert!(content_requires_php84("new Foo()->bar();"));
    assert!(content_requires_php84("$db = new mysqli();"));
    assert!(content_requires_php84("defined('ABSPATH') || exit;"));
    assert!(!content_requires_php84("<?php echo 'hello';"));
    assert!(!content_requires_php84("$a = new Foo(); $a->bar();"));
    assert!(!content_requires_php84(""));
}

#[test]
fn wordpress_paths() {
    assert!(file_path_marks_wordpress("/var/www/wp-admin/index.php"));
    assert!(file_path_marks_wordpress("wp-login.php"));
    assert!(file_path_marks_wordpress("x/wp-content/y.php"));
    assert!(!file_path_marks_wordpress("/var/www/index.php"));
    assert!(!file_path_marks_wordpress("wp_admin.php"));
}
