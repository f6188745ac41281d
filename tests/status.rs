use std::collections::hash_map::DefaultHasher;
use std::hash::Hasher;

use status_responders::etag::{digest, push_decimal, strong_entity_tag};
use status_responders::status::{accepted_response, created_response, custom_response};
use status_responders::{
    Accepted, Created, Custom, Header, NoContent, Reset, Responder, Response, Status,
};

fn header(name: &str, value: &str) -> Header {
    Header::new(name.to_string(), value.to_string())
}

fn pairs(r: &Response) -> Vec<(String, String)> {
    r.headers
        .iter()
        .map(|h| (h.name.clone(), h.value.clone()))
        .collect()
}

fn values(r: &Response, name: &str) -> Vec<String> {
    r.headers
        .iter()
        .filter(|h| h.name == name)
        .map(|h| h.value.clone())
        .collect()
}

fn body_response(status: u16, headers: Vec<Header>, body: &str) -> Response {
    Response {
        status: Status::new(status),
        headers,
        body: Some(body.as_bytes().to_vec()),
    }
}

fn expected_tag(content: &[u8]) -> String {
    let mut h = DefaultHasher::new();
    h.write(content);
    format!("\"{}\"", h.finish())
}

struct Failing(u16);

impl Responder for Failing {
    fn respond(self) -> Result<Response, Status> {
        Err(Status::new(self.0))
    }
}

struct Content {
    text: String,
}

impl Responder for Content {
    fn respond(self) -> Result<Response, Status> {
        Ok(body_response(200, vec![header("Content-Type", "text/plain")], &self.text))
    }

    fn digest_input(&self) -> Option<Vec<u8>> {
        Some(self.text.as_bytes().to_vec())
    }
}

#[test]
fn no_content_is_204_and_empty() {
    let r = NoContent.respond().unwrap();
    assert_eq!(r.status.code, 204);
    assert!(r.headers.is_empty());
    assert!(r.body.is_none());
}

#[test]
fn reset_is_205_and_empty() {
    let r = Reset.respond().unwrap();
    assert_eq!(r.status.code, 205);
    assert!(r.headers.is_empty());
    assert!(r.body.is_none());
}

#[test]
fn created_without_inner() {
    let url = "http://myservice.com/resource.json".to_string();
    let r = Created::<Response>(url.clone(), None).respond().unwrap();
    assert_eq!(r.status.code, 201);
    assert_eq!(pairs(&r), vec![("Location".to_string(), url)]);
    assert!(r.body.is_none());
}

#[test]
fn created_with_plain_inner() {
    let inner = body_response(200, vec![header("X-Custom", "yes")], "{ 'resource': 'Hello' }");
    let r = Created("/res/1".to_string(), Some(inner)).respond().unwrap();
    assert_eq!(r.status.code, 201);
    assert_eq!(
        pairs(&r),
        vec![
            ("X-Custom".to_string(), "yes".to_string()),
            ("Location".to_string(), "/res/1".to_string()),
        ]
    );
    assert_eq!(r.body, Some(b"{ 'resource': 'Hello' }".to_vec()));
    assert!(values(&r, "ETag").is_empty());
}

#[test]
fn created_with_content_sets_etag() {
    let inner = Content { text: "hello".to_string() };
    let r = Created("/res/2".to_string(), Some(inner)).respond().unwrap();
    assert_eq!(r.status.code, 201);
    assert_eq!(values(&r, "ETag"), vec![expected_tag(b"hello")]);
    assert_eq!(values(&r, "Location"), vec!["/res/2".to_string()]);
    assert_eq!(values(&r, "Content-Type"), vec!["text/plain".to_string()]);
    assert_eq!(r.body, Some(b"hello".to_vec()));
    assert_eq!(r.headers.last().unwrap().name, "Location");
}

#[test]
fn created_etag_is_deterministic() {
    let a = Created("/a".to_string(), Some(Content { text: "same".to_string() }))
        .respond()
        .unwrap();
    let b = Created("/b".to_string(), Some(Content { text: "same".to_string() }))
        .respond()
        .unwrap();
    let c = Created("/c".to_string(), Some(Content { text: "other".to_string() }))
        .respond()
        .unwrap();
    assert_eq!(values(&a, "ETag"), values(&b, "ETag"));
    assert_ne!(values(&a, "ETag"), values(&c, "ETag"));
}

#[test]
fn created_propagates_inner_failure() {
    let r = Created("/x".to_string(), Some(Failing(404))).respond();
    assert_eq!(r.unwrap_err(), Status::new(404));
}

#[test]
fn created_headers_win_over_inner() {
    let inner = body_response(
        200,
        vec![header("Location", "/inner"), header("ETag", "\"inner\""), header("X-A", "1")],
        "body",
    );
    let r = created_response("/outer".to_string(), Some(Ok(inner)), Some(b"body".to_vec())).unwrap();
    assert_eq!(values(&r, "Location"), vec!["/outer".to_string()]);
    assert_eq!(values(&r, "ETag"), vec![expected_tag(b"body")]);
    assert_eq!(values(&r, "X-A"), vec!["1".to_string()]);
}

#[test]
fn created_plain_keeps_inner_etag() {
    let inner = body_response(200, vec![header("ETag", "\"inner\"")], "b");
    let r = Created("/l".to_string(), Some(inner)).respond().unwrap();
    assert_eq!(values(&r, "ETag"), vec!["\"inner\"".to_string()]);
}

#[test]
fn created_response_ignores_content_without_inner() {
    let r = created_response("/l".to_string(), None, Some(b"x".to_vec())).unwrap();
    assert_eq!(pairs(&r), vec![("Location".to_string(), "/l".to_string())]);
}

#[test]
fn accepted_without_inner() {
    let r = Accepted::<Response>(None).respond().unwrap();
    assert_eq!(r.status.code, 202);
    assert!(r.headers.is_empty());
    assert!(r.body.is_none());
}

#[test]
fn accepted_with_inner() {
    let inner = body_response(200, vec![header("X-B", "2")], "processing");
    let r = Accepted(Some(inner)).respond().unwrap();
    assert_eq!(r.status.code, 202);
    assert_eq!(pairs(&r), vec![("X-B".to_string(), "2".to_string())]);
    assert_eq!(r.body, Some(b"processing".to_vec()));
}

#[test]
fn accepted_propagates_inner_failure() {
    let r = Accepted(Some(Failing(500))).respond();
    assert_eq!(r.unwrap_err(), Status::new(500));
    let r = accepted_response(Some(Err(Status::new(403))));
    assert_eq!(r.unwrap_err().code, 403);
}

#[test]
fn custom_overrides_status() {
    let inner = body_response(200, vec![header("X-C", "3")], "Hi!");
    let r = Custom(Status::new(418), inner).respond().unwrap();
    assert_eq!(r.status.code, 418);
    assert_eq!(pairs(&r), vec![("X-C".to_string(), "3".to_string())]);
    assert_eq!(r.body, Some(b"Hi!".to_vec()));
}

#[test]
fn custom_overrides_nested_wrapper_status() {
    let r = Custom(Status::new(299), Accepted::<Response>(None)).respond().unwrap();
    assert_eq!(r.status.code, 299);
}

#[test]
fn custom_propagates_inner_failure() {
    let r = Custom(Status::new(418), Failing(401)).respond();
    assert_eq!(r.unwrap_err(), Status::new(401));
    let r = custom_response(Status::new(418), Err(Status::new(502)));
    assert_eq!(r.unwrap_err().code, 502);
}

#[test]
fn builder_defaults_to_200() {
    let r = Response::build().ok().unwrap();
    assert_eq!(r.status.code, 200);
    assert!(r.headers.is_empty());
    assert!(r.body.is_none());
}

#[test]
fn builder_header_replaces_by_name() {
    let mut b = Response::build();
    b.header(header("A", "1"));
    b.header(header("B", "2"));
    b.header(header("A", "3"));
    let r = b.ok().unwrap();
    assert_eq!(
        pairs(&r),
        vec![
            ("B".to_string(), "2".to_string()),
            ("A".to_string(), "3".to_string()),
        ]
    );
}

#[test]
fn builder_merge_keeps_status_and_takes_headers_and_body() {
    let mut b = Response::build();
    b.status(Status::new(201));
    b.header(header("A", "1"));
    b.header(header("K", "keep"));
    b.body(b"old".to_vec());
    b.merge(body_response(500, vec![header("A", "2"), header("C", "4")], "new"));
    let r = b.ok().unwrap();
    assert_eq!(r.status.code, 201);
    assert_eq!(
        pairs(&r),
        vec![
            ("K".to_string(), "keep".to_string()),
            ("A".to_string(), "2".to_string()),
            ("C".to_string(), "4".to_string()),
        ]
    );
    assert_eq!(r.body, Some(b"new".to_vec()));
}

#[test]
fn builder_merge_without_body_keeps_body() {
    let mut b = Response::build();
    b.body(b"old".to_vec());
    b.merge(Response { status: Status::new(200), headers: Vec::new(), body: None });
    assert_eq!(b.ok().unwrap().body, Some(b"old".to_vec()));
}

#[test]
fn build_from_copies_response() {
    let b = Response::build_from(body_response(404, vec![header("X", "y")], "gone"));
    let r = b.ok().unwrap();
    assert_eq!(r.status.code, 404);
    assert_eq!(pairs(&r), vec![("X".to_string(), "y".to_string())]);
    assert_eq!(r.body, Some(b"gone".to_vec()));
}

#[test]
fn response_responds_with_itself() {
    let r = body_response(203, Vec::new(), "z").respond().unwrap();
    assert_eq!(r.status.code, 203);
    assert_eq!(r.body, Some(b"z".to_vec()));
}

#[test]
fn decimal_text() {
    let mut s = String::from("n=");
    push_decimal(&mut s, 1234509);
    assert_eq!(s, "n=1234509");
    let mut z = String::new();
    push_decimal(&mut z, 0);
    assert_eq!(z, "0");
    let mut m = String::new();
    push_decimal(&mut m, u64::MAX);
    assert_eq!(m, "18446744073709551615");
}

#[test]
fn strong_entity_tag_quotes_digits() {
    assert_eq!(strong_entity_tag(42), "\"42\"");
    assert_eq!(strong_entity_tag(0), "\"0\"");
}

#[test]
fn digest_matches_default_hasher() {
    let content = b"abc".to_vec();
    let mut h = DefaultHasher::new();
    h.write(&content);
    assert_eq!(digest(&content), h.finish());
    assert_ne!(digest(&content), digest(&b"abd".to_vec()));
}

#[test]
fn status_constructors() {
    assert_eq!(Status::ok().code, 200);
    assert_eq!(Status::created().code, 201);
    assert_eq!(Status::accepted().code, 202);
    assert_eq!(Status::no_content().code, 204);
    assert_eq!(Status::reset_content().code, 205);
    assert_eq!(Status::new(418).code, 418);
}

#[test]
fn created_keeps_repeated_inner_headers() {
    let inner = body_response(
        200,
        vec![header("A", "1"), header("Set-Cookie", "x=1"), header("A", "2"), header("Set-Cookie", "y=2")],
        "b",
    );
    let r = Created("/l".to_string(), Some(inner)).respond().unwrap();
    assert_eq!(
        pairs(&r),
        vec![
            ("A".to_string(), "1".to_string()),
            ("Set-Cookie".to_string(), "x=1".to_string()),
            ("A".to_string(), "2".to_string()),
            ("Set-Cookie".to_string(), "y=2".to_string()),
            ("Location".to_string(), "/l".to_string()),
        ]
    );
}

#[test]
fn created_plain_keeps_repeated_inner_etags() {
    let inner = body_response(200, vec![header("ETag", "\"a\""), header("ETag", "\"b\"")], "b");
    let r = Created("/l".to_string(), Some(inner)).respond().unwrap();
    assert_eq!(values(&r, "ETag"), vec!["\"a\"".to_string(), "\"b\"".to_string()]);
}

#[test]
fn accepted_keeps_repeated_inner_headers() {
    let inner = body_response(200, vec![header("A", "1"), header("B", "x"), header("A", "2")], "p");
    let r = Accepted(Some(inner)).respond().unwrap();
    assert_eq!(r.status.code, 202);
    assert_eq!(
        pairs(&r),
        vec![
            ("A".to_string(), "1".to_string()),
            ("B".to_string(), "x".to_string()),
            ("A".to_string(), "2".to_string()),
        ]
    );
    assert_eq!(r.body, Some(b"p".to_vec()));
}

#[test]
fn builder_merge_replaces_names_and_keeps_repeats() {
    let mut b = Response::build();
    b.header(header("A", "0"));
    b.header(header("K", "keep"));
    b.merge(body_response(200, vec![header("A", "1"), header("A", "2")], "n"));
    let r = b.ok().unwrap();
    assert_eq!(
        pairs(&r),
        vec![
            ("K".to_string(), "keep".to_string()),
            ("A".to_string(), "1".to_string()),
            ("A".to_string(), "2".to_string()),
        ]
    );
}
