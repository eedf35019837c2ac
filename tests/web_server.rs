use web_server_lib::dispatch::{
    dispatch, get_css, get_error, get_img, get_not_authorized, get_not_found, normalize_response,
    Dispatch,
};
use web_server_lib::error::HttpError;
use web_server_lib::request::{get_request_info, Request};
use web_server_lib::response::{Kvp, Response};
use web_server_lib::routes::{Pattern, RequestMatcherMap};
use web_server_lib::text::{push_decimal, replace_text, same_text};
use web_server_lib::verb::HttpVerb;

const TEMPLATE: &str = "<h1>#msg#</h1><p>#description#</p>";

fn request(verb: HttpVerb, path: &str) -> Request {
    Request { verb, path: path.to_string(), headers: Vec::new(), body: String::new() }
}

fn count(haystack: &str, needle: &str) -> usize {
    haystack.matches(needle).count()
}

#[test]
fn valid_asset_packaging_img() {
    assert_eq!(get_img(&[0x89, b'P', b'N', b'G']).get_code(), 200);
}

#[test]
fn valid_asset_packaging_404() {
    assert_eq!(get_not_found(TEMPLATE).get_code(), 404);
}

#[test]
fn verb_from_each_token() {
    assert_eq!(HttpVerb::from("GET"), Ok(HttpVerb::Get));
    assert_eq!(HttpVerb::from("PUT"), Ok(HttpVerb::Put));
    assert_eq!(HttpVerb::from("POST"), Ok(HttpVerb::Post));
    assert_eq!(HttpVerb::from("PATCH"), Ok(HttpVerb::Patch));
    assert_eq!(HttpVerb::from("DELETE"), Ok(HttpVerb::Delete));
    assert_eq!(HttpVerb::from("OPTION"), Ok(HttpVerb::Option));
    assert!(HttpVerb::from("get").is_err());
    assert!(HttpVerb::from("HEAD").is_err());
    assert!(HttpVerb::from("").is_err());
}

#[test]
fn parse_valid_request_lines() {
    let cases = [
        ("GET", HttpVerb::Get),
        ("PUT", HttpVerb::Put),
        ("POST", HttpVerb::Post),
        ("PATCH", HttpVerb::Patch),
        ("DELETE", HttpVerb::Delete),
        ("OPTION", HttpVerb::Option),
    ];
    for (token, verb) in cases {
        let line = format!("{} /a/b.html HTTP/1.1", token);
        let (v, p) = get_request_info(&line).ok().unwrap();
        assert_eq!(v, verb);
        assert_eq!(p, "/a/b.html");
    }
    let (v, p) = get_request_info("GET / HTTP/1.1").ok().unwrap();
    assert_eq!(v, HttpVerb::Get);
    assert_eq!(p, "/");
}

#[test]
fn parse_refuses_bad_version_or_verb() {
    assert!(get_request_info("GET / HTTP/1.0").is_err());
    assert!(get_request_info("GET / http/1.1").is_err());
    assert!(get_request_info("FETCH / HTTP/1.1").is_err());
    assert!(get_request_info("get / HTTP/1.1").is_err());
}

#[test]
fn parse_refuses_wrong_token_count() {
    assert!(get_request_info("").is_err());
    assert!(get_request_info("GET").is_err());
    assert!(get_request_info("GET /").is_err());
    assert!(get_request_info("GET / HTTP/1.1 extra").is_err());
    assert!(get_request_info("GET  / HTTP/1.1").is_err());
}

#[test]
fn parse_error_messages() {
    assert_eq!(
        get_request_info("FETCH / HTTP/1.1").err().unwrap().to_string(),
        "Failed to find matching verb"
    );
    assert_eq!(
        get_request_info("GET / HTTP/2").err().unwrap().to_string(),
        "Invalid HTTP version"
    );
}

#[test]
fn registered_route_matches_its_verb_only() {
    let mut map: RequestMatcherMap<&'static str> = RequestMatcherMap::new();
    assert!(map.add_matcher(HttpVerb::Get, Pattern::new("/hello").ok().unwrap(), "hello").is_ok());
    assert_eq!(map.match_request(&request(HttpVerb::Get, "/hello")), Some(&"hello"));
    assert_eq!(map.match_request(&request(HttpVerb::Get, "/x/hello/y")), Some(&"hello"));
    assert_eq!(map.match_request(&request(HttpVerb::Post, "/hello")), None);
    assert_eq!(map.match_request(&request(HttpVerb::Get, "/bye")), None);
}

#[test]
fn earlier_route_wins() {
    let mut map: RequestMatcherMap<&'static str> = RequestMatcherMap::new();
    map.add_matcher(HttpVerb::Get, Pattern::new("/sleep(/)?.*").ok().unwrap(), "sleep").unwrap();
    map.add_matcher(HttpVerb::Get, Pattern::new("/.*").ok().unwrap(), "any").unwrap();
    assert_eq!(map.match_request(&request(HttpVerb::Get, "/sleep/5")), Some(&"sleep"));
    assert_eq!(map.match_request(&request(HttpVerb::Get, "/index.html")), Some(&"any"));
}

#[test]
fn invalid_pattern_refused() {
    assert!(Pattern::new("/a(b").is_err());
    assert!(Pattern::new("/a(b)").is_ok());
    assert!(Pattern::new("/x").ok().unwrap().is_match("/y/x"));
    assert!(!Pattern::new("^/x").ok().unwrap().is_match("/y/x"));
}

#[test]
fn templated_body() {
    let r = Response::build(
        200,
        "Hello #name#",
        vec![Kvp { key: "name".to_string(), value: "World".to_string() }],
    );
    assert_eq!(r.content, "Hello World");
    assert!(r.to_string().ends_with("\r\n\r\nHello World"));
    assert!(r.to_string().contains("Content-Length: 11\r\n"));
}

#[test]
fn template_replaces_every_occurrence_in_order() {
    let r = Response::build(
        200,
        "#a#-#b#-#a#",
        vec![
            Kvp { key: "a".to_string(), value: "#b#".to_string() },
            Kvp { key: "b".to_string(), value: "x".to_string() },
        ],
    );
    assert_eq!(r.content, "x-x-x");
    let r = Response::build(200, "#a#", vec![Kvp { key: "a".to_string(), value: "$1 é".to_string() }]);
    assert_eq!(r.content, "$1 é");
    assert_eq!(r.length, 5);
}

#[test]
fn binary_round_trip() {
    let r = Response::build_binary(200, &[0, 255, 16]);
    assert!(r.is_binary());
    let (head, bytes) = r.to_header_and_binary();
    assert_eq!(bytes, vec![0u8, 255, 16]);
    assert!(head.contains("Content-Length: 3\r\n"));
    assert!(head.ends_with("\r\n\r\n"));
    assert_eq!(r.content, "AP8Q");
    assert_eq!(r.length, 3);
}

#[test]
fn default_content_type() {
    let r = Response::build(200, "x", Vec::new());
    let s = r.to_string();
    assert_eq!(count(&s, "Content-Type"), 1);
    assert!(s.contains("Content-Type: text/html\r\n"));
}

#[test]
fn handler_content_type_kept() {
    let r = get_css("body {}");
    let s = r.to_string();
    assert_eq!(count(&s, "Content-Type"), 1);
    assert!(s.contains("Content-Type: text/css\r\n"));
    assert!(!s.contains("text/html"));
}

#[test]
fn exact_wire_text() {
    let mut r = Response::build(201, "abc", Vec::new());
    r.add_header("X-One", "1");
    assert_eq!(
        r.to_string(),
        "HTTP/1.1 201 OK\r\nContent-Length: 3\r\nX-One: 1\r\nContent-Type: text/html\r\n\r\nabc"
    );
    let (status, headers) = r.build_header_string();
    assert_eq!(status, "HTTP/1.1 201 OK");
    assert_eq!(headers, "Content-Length: 3\r\nX-One: 1\r\nContent-Type: text/html\r\n");
}

#[test]
fn reason_phrases() {
    assert_eq!(Response::get_msg_for_code(200), "OK");
    assert_eq!(Response::get_msg_for_code(299), "OK");
    assert_eq!(Response::get_msg_for_code(302), "REDIRECT");
    assert_eq!(Response::get_msg_for_code(400), "ERROR");
    assert_eq!(Response::get_msg_for_code(401), "NOT AUTHORIZED");
    assert_eq!(Response::get_msg_for_code(403), "FORBIDDEN");
    assert_eq!(Response::get_msg_for_code(404), "NOT FOUND");
    assert_eq!(Response::get_msg_for_code(500), "ERROR");
    assert_eq!(Response::get_msg_for_code(199), "ERROR");
}

#[test]
fn internal_pages() {
    let nf = get_not_found(TEMPLATE);
    assert_eq!(nf.content, "<h1>NOT FOUND</h1><p>The resource was not found on the server</p>");
    let na = get_not_authorized(TEMPLATE);
    assert_eq!(na.get_code(), 401);
    assert!(na.content.contains("NOT AUTHORIZED"));
    let e = get_error(TEMPLATE, &HttpError::new("bad".to_string()));
    assert_eq!(e.get_code(), 404);
    assert_eq!(
        e.content,
        "<h1>ERROR EXECUTING REQUEST</h1><p>Encountered bad error while executing the request</p>"
    );
    let img = get_img(&[1, 2]);
    assert!(img.to_string().contains("Content-Type: image/png\r\n"));
}

fn boom(_: &Request) -> Response {
    Response::build(500, "boom", Vec::new())
}

fn ok(_: &Request) -> Response {
    Response::build(200, "fine", Vec::new())
}

#[test]
fn handler_error_normalized() {
    let mut map: RequestMatcherMap<fn(&Request) -> Response> = RequestMatcherMap::new();
    map.add_matcher(HttpVerb::Get, Pattern::new("/fail").ok().unwrap(), boom).unwrap();
    match dispatch("GET /fail HTTP/1.1", &map, TEMPLATE) {
        Dispatch::Invoke(req, h) => {
            let r = normalize_response(h(&req), TEMPLATE);
            assert_ne!(r.get_code(), 500);
            assert!(r.content.starts_with("<h1>ERROR EXECUTING REQUEST</h1>"));
            assert!(r.content.contains("HTTP/1.1 500 ERROR"));
            assert_ne!(r.content, "boom");
        }
        Dispatch::Reply(_) => panic!("the route should match"),
    }
}

#[test]
fn unknown_path_not_found() {
    let mut map: RequestMatcherMap<fn(&Request) -> Response> = RequestMatcherMap::new();
    map.add_matcher(HttpVerb::Get, Pattern::new("^/known$").ok().unwrap(), ok).unwrap();
    match dispatch("GET /unknown HTTP/1.1", &map, TEMPLATE) {
        Dispatch::Reply(r) => {
            assert_eq!(r.get_code(), 404);
            assert_eq!(r.content, get_not_found(TEMPLATE).content);
        }
        Dispatch::Invoke(..) => panic!("no route should match"),
    }
}

#[test]
fn malformed_line_gets_error_page() {
    let map: RequestMatcherMap<fn(&Request) -> Response> = RequestMatcherMap::new();
    match dispatch("BREW /pot HTTP/1.1", &map, TEMPLATE) {
        Dispatch::Reply(r) => {
            assert_eq!(r.get_code(), 404);
            assert!(r.content.contains("Failed to find matching verb"));
        }
        Dispatch::Invoke(..) => panic!("a malformed line is not routed"),
    }
}

#[test]
fn success_passes_unchanged() {
    let r = normalize_response(ok(&request(HttpVerb::Get, "/")), TEMPLATE);
    assert_eq!(r.get_code(), 200);
    assert_eq!(r.content, "fine");
    let r = normalize_response(Response::build(401, "no", Vec::new()), TEMPLATE);
    assert_eq!(r.get_code(), 401);
    assert!(r.content.contains("You are not authorized"));
    let r = normalize_response(Response::build(404, "gone", Vec::new()), TEMPLATE);
    assert_eq!(r.content, get_not_found(TEMPLATE).content);
}

#[test]
fn text_helpers() {
    let mut s = String::from("n=");
    push_decimal(&mut s, 0);
    push_decimal(&mut s, 65535);
    assert_eq!(s, "n=065535");
    assert_eq!(replace_text("aaa", "aa", "b"), "ba");
    assert_eq!(replace_text("xyz", "q", "b"), "xyz");
    assert!(same_text("é", "é"));
    assert!(!same_text("a", "ab"));
}
