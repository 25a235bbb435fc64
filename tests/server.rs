use websrv::pool::{Message, PoolState, WorkerState};
use websrv::response::decimal_string;
use websrv::{render_response, Header, Method, Outcome, Request, Route, StatusCode, WebSrv};

type Handler = fn(&Request) -> (StatusCode, String);

fn ping(_: &Request) -> (StatusCode, String) {
    (StatusCode::OK, String::from("pong"))
}

fn other(_: &Request) -> (StatusCode, String) {
    (StatusCode::Created, String::from("other"))
}

fn empty(_: &Request) -> (StatusCode, String) {
    (StatusCode::NoContent, String::new())
}

fn echo_uri(r: &Request) -> (StatusCode, String) {
    (StatusCode::Accepted, r.uri.clone())
}

fn table() -> Vec<Route<Handler>> {
    vec![
        Route::new("/ping", Method::GET, ping as Handler),
        Route::new("/ping", Method::POST, other as Handler),
        Route::new("/empty", Method::GET, empty as Handler),
        Route::new("/echo", Method::PUT, echo_uri as Handler),
    ]
}

#[test]
fn ping_route_scenario() {
    let routes = table();
    match WebSrv::handle_connection("GET /ping HTTP/1.1\r\n\r\n", &routes) {
        Outcome::Served { route, request, status, response } => {
            assert_eq!(route, 0);
            assert_eq!(request.uri, "/ping");
            assert_eq!(status, StatusCode::OK);
            assert_eq!(response, "HTTP/1.1 200 OK\r\nContent-Length: 4\r\n\r\npong");
        }
        _ => panic!("expected the ping route to serve the request"),
    }
}

#[test]
fn missing_route_scenario() {
    let routes = table();
    match WebSrv::handle_connection("GET /missing HTTP/1.1\r\n\r\n", &routes) {
        Outcome::Missed { request } => assert_eq!(request.uri, "/missing"),
        _ => panic!("expected a miss"),
    }
    assert_eq!(
        WebSrv::not_found_response("<h1>gone</h1>"),
        "HTTP/1.1 404 Not Found\r\nContent-Length: 13\r\n\r\n<h1>gone</h1>"
    );
}

#[test]
fn method_selects_route() {
    let routes = table();
    match WebSrv::handle_connection("POST /ping HTTP/1.1\r\n\r\n", &routes) {
        Outcome::Served { route, status, response, .. } => {
            assert_eq!(route, 1);
            assert_eq!(status, StatusCode::Created);
            assert_eq!(response, "HTTP/1.1 201 Created\r\nContent-Length: 5\r\n\r\nother");
        }
        _ => panic!("expected the POST route"),
    }
    assert!(matches!(
        WebSrv::handle_connection("DELETE /ping HTTP/1.1\r\n\r\n", &routes),
        Outcome::Missed { .. }
    ));
}

#[test]
fn first_registered_route_wins() {
    let routes: Vec<Route<Handler>> = vec![
        Route::new("/dup", Method::GET, ping as Handler),
        Route::new("/dup", Method::GET, other as Handler),
    ];
    match WebSrv::handle_connection("GET /dup HTTP/1.1\r\n\r\n", &routes) {
        Outcome::Served { route, status, .. } => {
            assert_eq!(route, 0);
            assert_eq!(status, StatusCode::OK);
        }
        _ => panic!("expected the first route"),
    }
}

#[test]
fn path_match_is_exact() {
    let routes = table();
    assert!(matches!(
        WebSrv::handle_connection("GET /ping/ HTTP/1.1\r\n\r\n", &routes),
        Outcome::Missed { .. }
    ));
}

#[test]
fn handler_sees_request() {
    let routes = table();
    match WebSrv::handle_connection("PUT /echo HTTP/1.0\r\n\r\n", &routes) {
        Outcome::Served { response, .. } => {
            assert_eq!(response, "HTTP/1.1 202 Accepted\r\nContent-Length: 5\r\n\r\n/echo");
        }
        _ => panic!("expected the echo route"),
    }
}

#[test]
fn empty_body_is_status_line_only() {
    let routes = table();
    match WebSrv::handle_connection("GET /empty HTTP/1.1\r\n\r\n", &routes) {
        Outcome::Served { response, .. } => assert_eq!(response, "HTTP/1.1 204 No Content\r\n"),
        _ => panic!("expected the empty route"),
    }
}

#[test]
fn malformed_text_closes_connection() {
    let routes = table();
    for text in [
        "",
        "\r\n\r\n",
        "GET /ping\r\n\r\n",
        "FETCH /ping HTTP/1.1\r\n\r\n",
        "GET /ping HTTP/1.1\r\nHost localhost\r\n\r\n",
    ] {
        assert!(matches!(WebSrv::handle_connection(text, &routes), Outcome::Close));
    }
}

#[test]
fn parse_full_request() {
    let text = "POST /submit HTTP/1.1\r\nHost: example\r\nAccept: a\r\nAccept: b\r\n\r\nline one\r\n\r\nline two";
    let r = Request::from_str(text).unwrap();
    assert_eq!(r.method, Method::POST);
    assert_eq!(r.uri, "/submit");
    assert_eq!(r.http_ver, "HTTP/1.1");
    assert_eq!(r.headers.len(), 3);
    assert_eq!(r.headers[0].key, "Host");
    assert_eq!(r.headers[0].value, "example");
    assert_eq!(r.headers[1].value, "a");
    assert_eq!(r.headers[2].key, "Accept");
    assert_eq!(r.headers[2].value, "b");
    assert_eq!(r.body, "line oneline two");
}

#[test]
fn parse_without_blank_line_or_body() {
    let r = Request::from_str("GET / HTTP/1.1\nHost: h").unwrap();
    assert_eq!(r.headers.len(), 1);
    assert_eq!(r.headers[0].value, "h");
    assert_eq!(r.body, "");
    let r = Request::from_str("GET   /a\tHTTP/2 extra").unwrap();
    assert_eq!(r.uri, "/a");
    assert_eq!(r.http_ver, "HTTP/2");
}

#[test]
fn header_value_stops_at_next_separator() {
    let r = Request::from_str("GET / HTTP/1.1\r\nX: one: two\r\nY: \r\n\r\n").unwrap();
    assert_eq!(r.headers[0].key, "X");
    assert_eq!(r.headers[0].value, "one");
    assert_eq!(r.headers[1].key, "Y");
    assert_eq!(r.headers[1].value, "");
}

#[test]
fn parse_rejects_malformed() {
    assert!(Request::from_str("").is_none());
    assert!(Request::from_str("\r\nGET / HTTP/1.1").is_none());
    assert!(Request::from_str("GET /").is_none());
    assert!(Request::from_str("get / HTTP/1.1").is_none());
    assert!(Request::from_str("GET / HTTP/1.1\r\nbroken\r\n\r\n").is_none());
    assert!(Request::from_str("GET / HTTP/1.1\r\n\r\nno: separator needed in body").is_some());
}

#[test]
fn method_round_trip() {
    for m in [Method::GET, Method::POST, Method::PUT, Method::PATCH, Method::DELETE] {
        assert_eq!(Method::from_str(Some(m.as_str())), Some(m));
    }
    assert_eq!(Method::from_str(Some("PATCH")), Some(Method::PATCH));
    assert_eq!(Method::from_str(Some("get")), None);
    assert_eq!(Method::from_str(Some("HEAD")), None);
    assert_eq!(Method::from_str(Some("")), None);
    assert_eq!(Method::from_str(None), None);
}

#[test]
fn status_texts() {
    assert_eq!(StatusCode::OK.text(), "200 OK");
    assert_eq!(StatusCode::Created.text(), "201 Created");
    assert_eq!(StatusCode::Accepted.text(), "202 Accepted");
    assert_eq!(StatusCode::NoContent.text(), "204 No Content");
    assert_eq!(StatusCode::BadRequest.text(), "400 Bad Request");
    assert_eq!(StatusCode::Unauthorized.text(), "401 Unauthorized");
    assert_eq!(StatusCode::Forbidden.text(), "403 Forbidden");
    assert_eq!(StatusCode::NotFound.text(), "404 Not Found");
}

#[test]
fn response_framing() {
    assert_eq!(render_response(StatusCode::Forbidden, ""), "HTTP/1.1 403 Forbidden\r\n");
    assert_eq!(
        render_response(StatusCode::OK, "pong"),
        "HTTP/1.1 200 OK\r\nContent-Length: 4\r\n\r\npong"
    );
    // the length counts bytes, not characters
    assert_eq!(
        render_response(StatusCode::OK, "h\u{e9}\u{20ac}"),
        "HTTP/1.1 200 OK\r\nContent-Length: 6\r\n\r\nh\u{e9}\u{20ac}"
    );
}

#[test]
fn decimal_spelling() {
    assert_eq!(decimal_string(0), "0");
    assert_eq!(decimal_string(7), "7");
    assert_eq!(decimal_string(4096), "4096");
    assert_eq!(decimal_string(usize::MAX), usize::MAX.to_string());
}

#[test]
fn constructors_keep_values() {
    let h = Header::new("Host", "example");
    assert_eq!(h.key, "Host");
    assert_eq!(h.value, "example");
    let r = Route::new("/x", Method::DELETE, 5u8);
    assert_eq!(r.path, "/x");
    assert_eq!(r.method, Method::DELETE);
    assert_eq!(r.func, 5u8);
    let s = WebSrv::new("127.0.0.1:7878", 4);
    assert_eq!(s.addr(), "127.0.0.1:7878");
    assert_eq!(s.workers(), 4);
}

#[test]
fn pool_runs_jobs_in_order_and_stops() {
    let mut p = PoolState::new(2);
    assert_eq!(p.size(), 2);
    assert_eq!(p.next_message(0), None);
    assert_eq!(p.submit(), Some(0));
    assert_eq!(p.submit(), Some(1));
    assert_eq!(p.submit(), Some(2));
    assert_eq!(p.next_message(0), Some(Message::NewJob(0)));
    // a busy worker takes nothing
    assert_eq!(p.next_message(0), None);
    assert_eq!(p.next_message(1), Some(Message::NewJob(1)));
    assert_eq!(p.next_message(5), None);
    p.job_done(0);
    p.shutdown();
    assert_eq!(p.submit(), None);
    // queued jobs come before the stop signals
    assert_eq!(p.next_message(0), Some(Message::NewJob(2)));
    assert!(!p.is_stopped());
    p.job_done(0);
    assert_eq!(p.next_message(0), Some(Message::Terminate));
    assert_eq!(p.next_message(0), None);
    p.job_done(1);
    assert_eq!(p.next_message(1), Some(Message::Terminate));
    assert!(p.is_stopped());
    assert_eq!(p.next_message(1), None);
}

#[test]
fn pool_shutdown_is_idempotent() {
    let mut p = PoolState::new(1);
    p.shutdown();
    p.shutdown();
    assert_eq!(p.next_message(0), Some(Message::Terminate));
    assert_eq!(p.next_message(0), None);
    assert!(p.is_stopped());
    p.job_done(0);
    assert!(p.is_stopped());
    let _ = WorkerState::Idle;
}
