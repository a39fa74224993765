use hyperion_vm::fibre::{ExecutionResult, YieldReason};
use hyperion_vm::server::{
    plan_parsed_request, worker_action, ConnState, Connection, Head, Next, ParsedRequest, Protocol, Reply, Reset,
    chunk_header, error_response, find_request_end, finished_response_head, finished_status_text_for,
    guest_me_request, guest_me_response, plan_request, static_file_response_head, str_contains, uri_before_query,
    waiting_response_head, waiting_status_text_for,
};

fn s(x: &str) -> String {
    x.to_string()
}

#[test]
fn request_end_is_after_the_blank_line() {
    assert_eq!(find_request_end(b"GET / HTTP/1.1\r\nHost: a\r\n\r\nbody"), Some(27));
    assert_eq!(find_request_end(b"\r\n\r\n"), Some(4));
    assert_eq!(find_request_end(b"GET / HTTP/1.1\r\nHost: a\r\n"), None);
    assert_eq!(find_request_end(b"\r\n\r"), None);
    assert_eq!(find_request_end(b""), None);
}

#[test]
fn status_texts_of_finished_responses() {
    assert_eq!(finished_status_text_for(200), "OK");
    assert_eq!(finished_status_text_for(303), "See Other");
    assert_eq!(finished_status_text_for(419), "Page Expired");
    assert_eq!(finished_status_text_for(503), "Service Unavailable");
    assert_eq!(finished_status_text_for(418), "OK");
}

#[test]
fn status_texts_of_waiting_responses() {
    assert_eq!(waiting_status_text_for(404), "Not Found");
    assert_eq!(waiting_status_text_for(422), "Unprocessable Entity");
    assert_eq!(waiting_status_text_for(303), "OK");
    assert_eq!(waiting_status_text_for(503), "OK");
}

#[test]
fn finished_head_guesses_json_and_drops_content_length() {
    let headers = vec![(s("X-A"), s("1")), (s("Content-Length"), s("99"))];
    let head = finished_response_head(201, &headers, b"{\"ok\":true}", true);
    assert_eq!(
        String::from_utf8(head).unwrap(),
        "HTTP/1.1 201 Created\r\nX-A: 1\r\nContent-Type: application/json\r\nContent-Length: 11\r\nConnection: keep-alive\r\n\r\n"
    );
    let head2 = finished_response_head(200, &Vec::new(), b"<p>", false);
    assert_eq!(
        String::from_utf8(head2).unwrap(),
        "HTTP/1.1 200 OK\r\nContent-Type: text/html; charset=UTF-8\r\nContent-Length: 3\r\nConnection: close\r\n\r\n"
    );
}

#[test]
fn finished_head_keeps_the_scripts_content_type() {
    let headers = vec![(s("content-type"), s("text/csv"))];
    let head = finished_response_head(200, &headers, b"[1]", false);
    assert_eq!(
        String::from_utf8(head).unwrap(),
        "HTTP/1.1 200 OK\r\ncontent-type: text/csv\r\nContent-Length: 3\r\nConnection: close\r\n\r\n"
    );
}

#[test]
fn waiting_head_defaults_to_html() {
    let head = waiting_response_head(503, &Vec::new(), 0, true);
    assert_eq!(
        String::from_utf8(head).unwrap(),
        "HTTP/1.1 503 OK\r\nContent-Type: text/html; charset=UTF-8\r\nContent-Length: 0\r\nConnection: keep-alive\r\n\r\n"
    );
}

#[test]
fn chunk_headers_are_upper_hex() {
    assert_eq!(chunk_header(0), b"0\r\n".to_vec());
    assert_eq!(chunk_header(255), b"FF\r\n".to_vec());
    assert_eq!(chunk_header(4096), b"1000\r\n".to_vec());
    assert_eq!(chunk_header(0xABCDEF), b"ABCDEF\r\n".to_vec());
}

#[test]
fn plan_of_a_plain_request() {
    let req = b"GET /blog/post?id=3 HTTP/1.1\r\nHost: a\r\n\r\n";
    let p = plan_request(req).unwrap();
    assert_eq!(p.body_offset, req.len());
    assert_eq!(p.path, "/blog/post?id=3");
    assert_eq!(p.raw_clean_path, "blog/post");
    assert!(p.keep_alive);
    assert!(!p.has_auth_cookie);
    assert_eq!(p.method, Some(s("GET")));
}

#[test]
fn plan_follows_connection_headers() {
    let p = plan_request(b"GET / HTTP/1.1\r\nConnection: Close\r\n\r\n").unwrap();
    assert!(!p.keep_alive);
    assert_eq!(p.raw_clean_path, "");
    let q = plan_request(b"GET / HTTP/1.0\r\n\r\n").unwrap();
    assert!(!q.keep_alive);
    let k = plan_request(b"GET / HTTP/1.0\r\nconnection: keep-alive\r\n\r\n").unwrap();
    assert!(k.keep_alive);
}

#[test]
fn plan_sees_the_auth_cookie() {
    let p = plan_request(b"GET /api/me HTTP/1.1\r\nCookie: a=1; blog_user=xyz\r\n\r\n").unwrap();
    assert!(p.has_auth_cookie);
    assert!(!guest_me_request("api/me", &p));
}

#[test]
fn plan_of_a_malformed_request() {
    assert!(plan_request(b"\x01\x02 nonsense\r\n\r\n").is_none());
}

#[test]
fn guest_me_requests() {
    let p = plan_request(b"GET /api/me HTTP/1.1\r\n\r\n").unwrap();
    assert!(guest_me_request("api/me", &p));
    let post = plan_request(b"POST /api/me HTTP/1.1\r\n\r\n").unwrap();
    assert!(!guest_me_request("api/me", &post));
    let other = plan_request(b"GET /api/you HTTP/1.1\r\n\r\n").unwrap();
    assert!(!guest_me_request("api/you", &other));
}

#[test]
fn guest_me_answer() {
    let r = guest_me_response(true);
    assert_eq!(
        String::from_utf8(r).unwrap(),
        "HTTP/1.1 200 OK\r\nContent-Type: application/json\r\nContent-Length: 35\r\nConnection: keep-alive\r\n\r\n{\"authenticated\":false,\"user\":null}"
    );
    let c = guest_me_response(false);
    assert!(String::from_utf8(c).unwrap().contains("Connection: close\r\n"));
}

#[test]
fn static_file_head() {
    let h = static_file_response_head("image/png", 1024, false);
    assert_eq!(
        String::from_utf8(h).unwrap(),
        "HTTP/1.1 200 OK\r\nContent-Type: image/png\r\nContent-Length: 1024\r\nConnection: close\r\n\r\n"
    );
}

#[test]
fn error_response_carries_the_message() {
    let r = error_response("boom");
    assert_eq!(
        String::from_utf8(r).unwrap(),
        "HTTP/1.1 500 Internal Server Error\r\nContent-Type: text/plain; charset=UTF-8\r\nContent-Length: 4\r\nConnection: close\r\n\r\nboom"
    );
}

#[test]
fn query_and_containment_helpers() {
    assert_eq!(uri_before_query("/a/b?x=1?y"), "/a/b");
    assert_eq!(uri_before_query("/plain"), "/plain");
    assert_eq!(uri_before_query("?q"), "");
    assert!(str_contains("hello world", "o w"));
    assert!(str_contains("abc", ""));
    assert!(!str_contains("abc", "abcd"));
}

fn conn(protocol: Protocol) -> ConnState {
    ConnState {
        has_stream: true,
        protocol,
        headers_sent: false,
        output_empty: false,
        keep_alive: true,
        frames_left: false,
        has_checkpoint: false,
        db_result_ready: false,
    }
}

fn decision(res: &ExecutionResult, c: &ConnState) -> (Reply, Connection, Reset, Next, String) {
    let a = worker_action(res, c);
    (a.write, a.connection, a.reset, a.next, a.text)
}

#[test]
fn finished_runs_are_answered_and_the_fibre_returned() {
    let http = conn(Protocol::Http);
    assert_eq!(
        decision(&ExecutionResult::Finished, &http),
        (Reply::Response(Head::Finished), Connection::Recycle, Reset::ForNextRequest, Next::Idle, s(""))
    );
    let chunked = ConnState { headers_sent: true, output_empty: true, keep_alive: false, has_checkpoint: true, ..http };
    assert_eq!(
        decision(&ExecutionResult::Finished, &chunked),
        (Reply::LastChunks(false), Connection::Drop, Reset::ToCheckpoint, Next::IdleOctane, s(""))
    );
    let nested = ConnState { frames_left: true, ..http };
    assert_eq!(decision(&ExecutionResult::Finished, &nested).3, Next::LocalQueue);
    let fcgi = conn(Protocol::FastCgi { keep_conn: false });
    assert_eq!(decision(&ExecutionResult::Finished, &fcgi).0, Reply::FastCgi);
    assert_eq!(decision(&ExecutionResult::Finished, &fcgi).1, Connection::Shutdown);
    let cli = ConnState { has_stream: false, ..http };
    assert_eq!(decision(&ExecutionResult::Finished, &cli).0, Reply::Stdout);
}

#[test]
fn yields_and_errors_are_scheduled() {
    let http = conn(Protocol::Http);
    assert_eq!(
        decision(&ExecutionResult::Yielded(YieldReason::OutputFlush), &http),
        (Reply::Chunk(true), Connection::Keep, Reset::ClearOutput, Next::Idle, s(""))
    );
    assert_eq!(decision(&ExecutionResult::Yielded(YieldReason::Network), &http).3, Next::Reactor);
    let ready = ConnState { db_result_ready: true, ..http };
    assert_eq!(decision(&ExecutionResult::Yielded(YieldReason::Database(4)), &ready).3, Next::Park(true));
    assert_eq!(
        decision(&ExecutionResult::Yielded(YieldReason::AsyncInclude(s("a.php"))), &http),
        (Reply::Nothing, Connection::Keep, Reset::Keep, Next::CompileInclude, s("a.php"))
    );
    assert_eq!(
        decision(&ExecutionResult::Yielded(YieldReason::WaitForHttpRequest), &http),
        (Reply::Response(Head::Waiting), Connection::Recycle, Reset::ClearResponse(false), Next::Idle, s(""))
    );
    let cli = ConnState { has_stream: false, ..http };
    assert_eq!(decision(&ExecutionResult::Yielded(YieldReason::WaitForHttpRequest), &cli).3, Next::Dropped);
    assert_eq!(decision(&ExecutionResult::Yielded(YieldReason::GeneratorYield), &http).3, Next::Dropped);
    assert_eq!(decision(&ExecutionResult::Preempted, &http).3, Next::GlobalQueue);
    assert_eq!(
        decision(&ExecutionResult::UncaughtException(s("boom")), &http),
        (Reply::Error500, Connection::Shutdown, Reset::ForNextRequest, Next::Idle, s("Uncaught Exception: boom"))
    );
    let fcgi = conn(Protocol::FastCgi { keep_conn: true });
    assert_eq!(decision(&ExecutionResult::Error(s("bad")), &fcgi).0, Reply::FastCgiError);
    assert_eq!(decision(&ExecutionResult::Error(s("bad")), &fcgi).4, s("bad"));
}

#[test]
fn planning_from_a_parsed_request() {
    let parsed = ParsedRequest {
        body_offset: None,
        method: Some(s("GET")),
        path: Some(s("//api/me?x=1")),
        version: Some(0),
        headers: vec![(s("Connection"), b"Keep-Alive".to_vec()), (s("Cookie"), b"blog_user=1".to_vec())],
    };
    let p = plan_parsed_request(40, parsed);
    assert_eq!(p.body_offset, 40);
    assert_eq!(p.raw_clean_path, "api/me");
    assert!(p.keep_alive);
    assert!(p.has_auth_cookie);
    let bare = ParsedRequest { body_offset: Some(18), method: None, path: None, version: Some(1), headers: Vec::new() };
    let p = plan_parsed_request(18, bare);
    assert_eq!((p.body_offset, p.path.as_str(), p.keep_alive, p.has_auth_cookie), (18, "/", true, false));
}
