use http_server::headers::{RequestHeaders, ResponseHeaders};
use http_server::methods::HttpMethod;
use http_server::request::Request;
use http_server::response::Response;
use http_server::routes::Route;
use http_server::server::Server;
use http_server::status::HttpStatusCode;
use http_server::store::AssetStore;
use http_server::text::{is_whitespace, split_lines, split_whitespace};

const INDEX: &str = "<h1>index</h1>";
const BAD: &str = "<h1>bad request</h1>";
const MISSING: &str = "<h1>not found</h1>";

fn store() -> AssetStore {
    let mut s = AssetStore::new();
    s.add("index.html", INDEX.to_string());
    s.add("badRequest.html", BAD.to_string());
    s.add("notFound.html", MISSING.to_string());
    s
}

fn content_type(r: &Response) -> Option<String> {
    r.headers.get(ResponseHeaders::ContentType).map(|v| v.to_string())
}

#[test]
fn root_request_serves_index() {
    let r = Request::validate("GET / HTTP/1.1\r\n\r\n".to_string(), &store());
    assert_eq!(r.status, HttpStatusCode::OK);
    assert_eq!(r.body.as_deref(), Some(INDEX));
    assert_eq!(content_type(&r).as_deref(), Some("text/html"));
    assert_eq!(r.version, "HTTP/1.1");
}

#[test]
fn missing_file_gives_not_found() {
    let r = Request::validate("GET /missing.html HTTP/1.1\r\n\r\n".to_string(), &store());
    assert_eq!(r.status, HttpStatusCode::NotFound);
    assert_eq!(r.body.as_deref(), Some(MISSING));
}

#[test]
fn one_token_request_line_is_bad_request() {
    let r = Request::validate("BADLINE\r\n\r\n".to_string(), &store());
    assert_eq!(r.status, HttpStatusCode::BadRequest);
    assert_eq!(r.body.as_deref(), Some(BAD));
}

#[test]
fn user_agent_value_loses_its_spaces() {
    let text = "GET / HTTP/1.1\r\nUser-Agent: test client\r\n\r\n".to_string();
    let (_, lines) = Request::split_request(text);
    let map = RequestHeaders::validate(lines);
    // Tokens are joined with nothing between them: the space is lost.
    assert_eq!(map.get(RequestHeaders::UserAgent), Some("testclient"));
    assert_eq!(map.get(RequestHeaders::Accept), None);
}

#[test]
fn empty_input_is_bad_request() {
    let r = Request::validate(String::new(), &store());
    assert_eq!(r.status, HttpStatusCode::BadRequest);
}

#[test]
fn four_tokens_is_bad_request() {
    let r = Request::validate("GET / HTTP/1.1 extra\r\n\r\n".to_string(), &store());
    assert_eq!(r.status, HttpStatusCode::BadRequest);
}

#[test]
fn unknown_method_is_bad_request() {
    let r = Request::validate("FETCH / HTTP/1.1\r\n\r\n".to_string(), &store());
    assert_eq!(r.status, HttpStatusCode::BadRequest);
    let r = Request::validate("get / HTTP/1.1\r\n\r\n".to_string(), &store());
    assert_eq!(r.status, HttpStatusCode::BadRequest);
}

#[test]
fn existing_file_is_served() {
    let mut s = store();
    s.add("about.html", "<p>about</p>".to_string());
    let r = Request::validate("POST /about.html HTTP/1.1\r\nAccept: */*\r\n\r\n".to_string(), &s);
    assert_eq!(r.status, HttpStatusCode::OK);
    assert_eq!(r.body.as_deref(), Some("<p>about</p>"));
}

#[test]
fn unreadable_file_gives_not_found() {
    let mut s = store();
    s.add_unreadable("/logo.png");
    assert!(s.contains("/logo.png"));
    assert_eq!(s.read_text("logo.png"), None);
    let r = Request::validate("GET /logo.png HTTP/1.1\r\n\r\n".to_string(), &s);
    assert_eq!(r.status, HttpStatusCode::NotFound);
    assert_eq!(r.body.as_deref(), Some(MISSING));
}

#[test]
fn every_method_validates_unchanged() {
    let names = ["GET", "HEAD", "POST", "PUT", "DELETE", "CONNECT", "OPTIONS", "TRACE", "PATCH"];
    for n in names {
        assert_eq!(HttpMethod::validate(n).ok().as_deref(), Some(n));
    }
    assert_eq!(HttpMethod::methods().len(), 9);
    for (m, n) in HttpMethod::methods().iter().zip(names) {
        assert_eq!(m.name(), n);
    }
}

#[test]
fn other_tokens_are_not_methods() {
    for n in ["get", "Get", "", "GETS", " GET", "FETCH"] {
        assert!(HttpMethod::validate(n).is_err());
    }
}

#[test]
fn root_route_is_default_document() {
    let mut s = store();
    s.add("/", "odd".to_string());
    assert_eq!(Route::validate("/", &s).ok().as_deref(), Some("index.html"));
    assert_eq!(Route::validate("/", &store()).ok().as_deref(), Some("index.html"));
}

#[test]
fn route_resolves_existing_and_rejects_missing() {
    let mut s = store();
    s.add("docs/a.html", "a".to_string());
    assert_eq!(Route::validate("/docs/a.html", &s).ok().as_deref(), Some("/docs/a.html"));
    match Route::validate("/docs/b.html", &s) {
        Ok(_) => panic!("a missing path resolved"),
        Err(r) => {
            assert_eq!(r.status, HttpStatusCode::NotFound);
            assert_eq!(r.body.as_deref(), Some(MISSING));
        }
    }
}

#[test]
fn header_lines_build_the_map() {
    let line = |t: &[&str]| t.iter().map(|s| s.to_string()).collect::<Vec<String>>();
    let map = RequestHeaders::validate(vec![
        line(&["Accept:", "text/html"]),
        line(&["X-Unknown:", "1"]),
        line(&["Cookie", "a=b"]),
        line(&["Connection:", "keep", "alive"]),
        line(&["Accept:", "*/*"]),
        line(&[]),
        line(&["Content-Type:"]),
    ]);
    assert_eq!(map.get(RequestHeaders::Accept), Some("*/*"));
    assert_eq!(map.get(RequestHeaders::Connection), Some("keepalive"));
    assert_eq!(map.get(RequestHeaders::Cookie), None);
    assert_eq!(map.get(RequestHeaders::ContentType), Some(""));
    assert_eq!(map.get(RequestHeaders::UserAgent), None);
}

#[test]
fn header_catalog_order_and_names() {
    let names: Vec<&str> = RequestHeaders::headers().iter().map(|h| h.name()).collect();
    assert_eq!(
        names,
        vec![
            "Accept",
            "Accept-Encoding",
            "Accept-Language",
            "User-Agent",
            "Authorization",
            "Content-Type",
            "Cookie",
            "Connection"
        ]
    );
    let names: Vec<&str> = ResponseHeaders::headers().iter().map(|h| h.name()).collect();
    assert_eq!(names.len(), 9);
    assert_eq!(names[0], "Content-Type");
    assert_eq!(names[8], "Keep-Alive");
    assert_eq!(ResponseHeaders::SetCookie.index(), 3);
}

#[test]
fn default_response_serializes_bare() {
    let r = Response::default();
    assert_eq!(r.status, HttpStatusCode::OK);
    assert!(r.body.is_none());
    assert_eq!(r.to_wire(), "HTTP/1.1 200\r\n\r\n");
}

#[test]
fn page_serializes_exactly() {
    let r = Response::not_found(&store());
    assert_eq!(
        r.to_wire(),
        "HTTP/1.1 404\r\nContent-Type: text/html\r\n\r\n<h1>not found</h1>\r\n"
    );
    let r = Response::bad_request(&store());
    assert_eq!(r.to_wire(), "HTTP/1.1 400\r\nContent-Type: text/html\r\n\r\n<h1>bad request</h1>\r\n");
}

#[test]
fn serialized_headers_split_back() {
    let mut r = Response::ok(&store());
    r.headers.insert(ResponseHeaders::Server, "tiny server".to_string());
    let (first, headers) = Request::split_request(r.to_wire());
    assert_eq!(first, vec!["HTTP/1.1".to_string(), "200".to_string()]);
    assert_eq!(
        headers,
        vec![
            vec!["Content-Type:".to_string(), "text/html".to_string()],
            vec!["Server:".to_string(), "tiny".to_string(), "server".to_string()],
        ]
    );
}

#[test]
fn builders_repeat_byte_for_byte() {
    let s = store();
    assert_eq!(Response::ok(&s).to_wire(), Response::ok(&s).to_wire());
    assert_eq!(Response::bad_request(&s).to_wire(), Response::bad_request(&s).to_wire());
    assert_eq!(Response::not_found(&s).to_wire(), Response::not_found(&s).to_wire());
    assert_eq!(
        Response::send("/index.html".to_string(), &s).to_wire(),
        Response::send("/index.html".to_string(), &s).to_wire()
    );
}

#[test]
fn send_serves_or_falls_back() {
    let s = store();
    let r = Response::send("index.html".to_string(), &s);
    assert_eq!(r.status, HttpStatusCode::OK);
    assert_eq!(r.body.as_deref(), Some(INDEX));
    let r = Response::send("nothing.html".to_string(), &s);
    assert_eq!(r.status, HttpStatusCode::NotFound);
}

#[test]
fn status_codes() {
    assert_eq!(HttpStatusCode::OK.code(), 200);
    assert_eq!(HttpStatusCode::BadRequest.code(), 400);
    assert_eq!(HttpStatusCode::NotFound.code(), 404);
    assert_eq!(HttpStatusCode::NotFound.code_text(), "404");
    assert_eq!(HttpStatusCode::default(), HttpStatusCode::OK);
}

#[test]
fn lines_split_like_std() {
    for text in ["a\r\nb\n\nc", "", "\n", "x\r", "one\r\n\r\ntwo\r\n", "a\r\r\nb"] {
        let ours = split_lines(text);
        let std_lines: Vec<String> = text.lines().map(|l| l.to_string()).collect();
        assert_eq!(ours, std_lines, "{:?}", text);
    }
}

#[test]
fn tokens_split_like_std() {
    for text in ["  a\tb  c ", "", "   ", "x", "a\u{3000}b\u{85}c\u{a0}d"] {
        let ours = split_whitespace(text);
        let std_tokens: Vec<String> = text.split_whitespace().map(|t| t.to_string()).collect();
        assert_eq!(ours, std_tokens, "{:?}", text);
    }
    for c in ['a', ' ', '\t', '\u{2028}', '\u{200b}', '\u{1680}', '\u{feff}'] {
        assert_eq!(is_whitespace(c), c.is_whitespace(), "{:?}", c);
    }
}

#[test]
fn store_paths_ignore_leading_slashes() {
    let s = store();
    assert!(s.contains("/index.html"));
    assert!(s.contains("//index.html"));
    assert!(s.contains("index.html"));
    assert!(!s.contains("/index.htm"));
    assert_eq!(s.read_text("/notFound.html").as_deref(), Some(MISSING));
    assert!(s.has_documents());
    assert!(!AssetStore::new().has_documents());
}

#[test]
fn server_keeps_its_address() {
    let s = Server::new("127.0.0.1:80".to_string());
    assert_eq!(s.ip(), "127.0.0.1:80");
}

#[test]
fn request_serializes_in_catalog_order() {
    let mut headers = http_server::headers::RequestHeaderMap::new();
    headers.insert(RequestHeaders::Cookie, "a=b".to_string());
    headers.insert(RequestHeaders::Accept, "text/html".to_string());
    headers.insert(RequestHeaders::Accept, "*/*".to_string());
    let r = Request { method: HttpMethod::PUT, url: "/x.html".to_string(), headers, body: None };
    assert_eq!(r.to_wire(), "PUT /x.html HTTP/1.1\r\nAccept: */*\r\nCookie: a=b\r\n");
    assert_eq!(HttpMethod::default(), HttpMethod::GET);
}
