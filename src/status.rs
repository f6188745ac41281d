//! Wrappers that set the status code of a response, and the headers that go
//! with it, around an optional nested responder.
use vstd::prelude::*;
use crate::etag::{digest, etag_of, strong_entity_tag};
use crate::http::{
    builder_of, bytes_view, empty_builder, finished, lemma_with_header,
    merged, header_is, with_header, with_header_set, with_status, without_name, Header,
    HeaderView, Response, ResponseView, Status,
};
use crate::responder::Responder;
use vstd::string::StringExecFns;

verus! {

/// The name of the `Location` header.
pub open spec fn location_name() -> Seq<char> {
    seq!['L', 'o', 'c', 'a', 't', 'i', 'o', 'n']
}

/// The name of the `ETag` header.
pub open spec fn etag_name() -> Seq<char> {
    seq!['E', 'T', 'a', 'g']
}

fn location_header(location: String) -> (r: Header)
    ensures
        r@ == (location_name(), location@),
{
    let name = String::from_str("Location");
    proof {
        reveal_strlit("Location");
        assert(name@ =~= location_name());
    }
    Header::new(name, location)
}

fn etag_header(tag: String) -> (r: Header)
    ensures
        r@ == (etag_name(), tag@),
{
    let name = String::from_str("ETag");
    proof {
        reveal_strlit("ETag");
        assert(name@ =~= etag_name());
    }
    Header::new(name, tag)
}

/// The response of a nested responder, where there is one and it succeeded.
pub open spec fn success_view(inner: Option<Result<Response, Status>>) -> Option<ResponseView> {
    match inner {
        Some(Ok(r)) => Some(r@),
        _ => None,
    }
}

/// The response of a created resource at `location`: the nested response, if any,
/// merged in, then the entity tag `tag`, if any, then status 201 and the location.
pub open spec fn created_view(
    location: Seq<char>,
    inner: Option<ResponseView>,
    tag: Option<Seq<char>>,
) -> ResponseView {
    let b = match inner {
        Some(r) => merged(empty_builder(), r),
        None => empty_builder(),
    };
    let b = match tag {
        Some(t) => with_header_set(b, (etag_name(), t)),
        None => b,
    };
    finished(with_header_set(with_status(b, 201), (location_name(), location)))
}

/// The entity tag that a created response carries: one derived from the nested
/// value's content, where there is a nested value and it gives its content.
pub open spec fn created_tag(has_inner: bool, content: Option<Seq<u8>>) -> Option<Seq<char>> {
    match content {
        Some(c) if has_inner => Some(etag_of(c)),
        _ => None,
    }
}

/// The response of an accepted request: the nested response, if any, merged in,
/// then status 202.
pub open spec fn accepted_view(inner: Option<ResponseView>) -> ResponseView {
    let b = match inner {
        Some(r) => merged(empty_builder(), r),
        None => empty_builder(),
    };
    finished(with_status(b, 202))
}

/// The nested response `inner` with its status replaced by `status`.
pub open spec fn custom_view(status: u16, inner: ResponseView) -> ResponseView {
    finished(with_status(builder_of(inner), status))
}

/// The response with only status `code`: no headers, no body.
pub open spec fn bare_view(code: u16) -> ResponseView {
    finished(with_status(empty_builder(), code))
}

/// Finishes a 201 Created response from what its nested responder produced.
///
/// `inner` is the outcome of the nested responder, if there is one, and
/// `content` the bytes it gave for an entity tag before it was consumed. A
/// failure of the nested responder is returned as it is; otherwise the response
/// is `created_view` of the location, the nested response and the entity tag.
pub fn created_response(
    location: String,
    inner: Option<Result<Response, Status>>,
    content: Option<Vec<u8>>,
) -> (r: Result<Response, Status>)
    ensures
        inner matches Some(Err(f)) ==> r == Err::<Response, Status>(f),
        !(inner matches Some(Err(_))) ==> (r matches Ok(resp) && resp@ == created_view(
            location@,
            success_view(inner),
            created_tag(inner is Some, bytes_view(content)),
        )),
{
    let mut build = Response::build();
    let has_inner = inner.is_some();
    match inner {
        Some(Ok(resp)) => {
            build.merge(resp);
        },
        Some(Err(f)) => {
            return Err(f);
        },
        None => {},
    }
    if has_inner {
        match content {
            Some(c) => {
                let d = digest(&c);
                build.header(etag_header(strong_entity_tag(d)));
            },
            None => {},
        }
    }
    build.status(Status::created());
    build.header(location_header(location));
    build.ok()
}

/// Finishes a 202 Accepted response from what its nested responder produced:
/// a failure is returned as it is, and otherwise the response is `accepted_view`.
pub fn accepted_response(inner: Option<Result<Response, Status>>) -> (r: Result<
    Response,
    Status,
>)
    ensures
        inner matches Some(Err(f)) ==> r == Err::<Response, Status>(f),
        !(inner matches Some(Err(_))) ==> (r matches Ok(resp) && resp@ == accepted_view(
            success_view(inner),
        )),
{
    let mut build = Response::build();
    match inner {
        Some(Ok(resp)) => {
            build.merge(resp);
        },
        Some(Err(f)) => {
            return Err(f);
        },
        None => {},
    }
    build.status(Status::accepted());
    build.ok()
}

/// Finishes a response with status `status` from what its nested responder
/// produced: a failure is returned as it is, and otherwise the nested response
/// is kept with its status replaced.
pub fn custom_response(status: Status, inner: Result<Response, Status>) -> (r: Result<
    Response,
    Status,
>)
    ensures
        inner matches Err(f) ==> r == Err::<Response, Status>(f),
        inner matches Ok(x) ==> (r matches Ok(resp) && resp@ == custom_view(status.code, x@)),
{
    match inner {
        Ok(resp) => {
            let mut build = Response::build_from(resp);
            build.status(status);
            build.ok()
        },
        Err(f) => Err(f),
    }
}

/// Sets the status of the response to 201 Created and its `Location` header to
/// the text held. The optional nested responder finishes the response; where it
/// gives its content, the response also gets an `ETag` derived from it. Without
/// a nested responder the body is empty.
pub struct Created<R>(pub String, pub Option<R>);

impl<R: Responder> Responder for Created<R> {
    fn respond(self) -> (r: Result<Response, Status>)
        ensures
            self.1 is None ==> (r matches Ok(resp) && resp@ == created_view(self.0@, None, None)),
            r is Err ==> self.1 is Some,
            r matches Ok(resp) ==> resp@.status == 201 && header_is(
                resp@.headers,
                location_name(),
                self.0@,
            ),
    {
        let content = match &self.1 {
            Some(responder) => responder.digest_input(),
            None => None,
        };
        let inner = match self.1 {
            Some(responder) => Some(responder.respond()),
            None => None,
        };
        let ghost tag = created_tag(inner is Some, bytes_view(content));
        proof {
            lemma_created_headers_win(self.0@, success_view(inner), tag);
        }
        created_response(self.0, inner, content)
    }
}

/// Sets the status of the response to 202 Accepted. A nested responder, if
/// any, finishes the response; without one the body is empty.
pub struct Accepted<R>(pub Option<R>);

impl<R: Responder> Responder for Accepted<R> {
    fn respond(self) -> (r: Result<Response, Status>)
        ensures
            self.0 is None ==> (r matches Ok(resp) && resp@ == bare_view(202)),
            r is Err ==> self.0 is Some,
            r matches Ok(resp) ==> resp@.status == 202,
    {
        let inner = match self.0 {
            Some(responder) => Some(responder.respond()),
            None => None,
        };
        accepted_response(inner)
    }
}

/// Sets the status of the response to 204 No Content, with an empty body.
pub struct NoContent;

impl Responder for NoContent {
    fn respond(self) -> (r: Result<Response, Status>)
        ensures
            r matches Ok(resp) && resp@ == bare_view(204),
    {
        let mut build = Response::build();
        build.status(Status::no_content());
        build.ok()
    }
}

/// Sets the status of the response to 205 Reset Content, with an empty body.
pub struct Reset;

impl Responder for Reset {
    fn respond(self) -> (r: Result<Response, Status>)
        ensures
            r matches Ok(resp) && resp@ == bare_view(205),
    {
        let mut build = Response::build();
        build.status(Status::reset_content());
        build.ok()
    }
}

/// Responds with the given status, and hands the rest of the response to the
/// nested responder.
pub struct Custom<R>(pub Status, pub R);

impl<R: Responder> Responder for Custom<R> {
    fn respond(self) -> (r: Result<Response, Status>)
        ensures
            r matches Ok(resp) ==> resp@.status == self.0.code,
    {
        custom_response(self.0, self.1.respond())
    }
}

/// The headers that a created response sets come last and win: whatever headers
/// the nested response set, the result holds exactly one `Location`, with the
/// given location, and, where there is an entity tag, exactly one `ETag`, with
/// that tag. The status is 201 in every case.
pub proof fn lemma_created_headers_win(
    location: Seq<char>,
    inner: Option<ResponseView>,
    tag: Option<Seq<char>>,
)
    ensures
        created_view(location, inner, tag).status == 201,
        header_is(created_view(location, inner, tag).headers, location_name(), location),
        tag matches Some(t) ==> header_is(created_view(location, inner, tag).headers, etag_name(), t),
{
    let b0 = match inner {
        Some(r) => merged(empty_builder(), r),
        None => empty_builder(),
    };
    let b1 = match tag {
        Some(t) => with_header_set(b0, (etag_name(), t)),
        None => b0,
    };
    let loc = (location_name(), location);
    lemma_with_header(b1.headers, loc);
    let hs = with_header(b1.headers, loc);
    if let Some(t) = tag {
        let et = (etag_name(), t);
        lemma_with_header(b0.headers, et);
        assert(etag_name() != location_name()) by {
            assert(etag_name().len() != location_name().len());
        }
        assert(hs.contains(et));
        assert forall|g: HeaderView| #[trigger] hs.contains(g) && g.0 == etag_name() implies g.1 == t by {
            assert(b1.headers.contains(g));
        }
    }
}

/// Without a nested responder, a created response has status 201, the
/// `Location` header alone, and no body.
pub proof fn lemma_created_without_inner(location: Seq<char>)
    ensures
        created_view(location, None, None) == (ResponseView {
            status: 201,
            headers: seq![(location_name(), location)],
            body: None,
        }),
{
    let e = Seq::<HeaderView>::empty();
    assert(crate::http::without_name(e, location_name()) == e);
    assert(with_header(e, (location_name(), location)) =~= seq![(location_name(), location)]);
}

/// Merging a response into a builder with nothing set gives its headers and
/// its body as they are.
pub proof fn lemma_merged_into_empty(inner: ResponseView)
    ensures
        merged(empty_builder(), inner).headers == inner.headers,
        merged(empty_builder(), inner).body == inner.body,
{
    assert(Seq::<HeaderView>::empty().add(inner.headers) =~= inner.headers);
}

/// With a nested response and no entity tag, a created response has status 201,
/// the nested body, and the nested headers in their order, but for `Location`,
/// followed by the given location. A header of another name is in the result
/// exactly when it is in the nested response, so no `ETag` is added.
pub proof fn lemma_created_plain(location: Seq<char>, inner: ResponseView)
    ensures
        created_view(location, Some(inner), None).status == 201,
        created_view(location, Some(inner), None).body == inner.body,
        created_view(location, Some(inner), None).headers == without_name(
            inner.headers,
            location_name(),
        ).push((location_name(), location)),
        header_is(created_view(location, Some(inner), None).headers, location_name(), location),
        forall|g: HeaderView|
            g.0 != location_name() ==> (created_view(location, Some(inner), None).headers.contains(
                g,
            ) <==> inner.headers.contains(g)),
{
    lemma_merged_into_empty(inner);
    lemma_with_header(inner.headers, (location_name(), location));
}

/// With a nested response, an accepted response is that response with status 202:
/// the same headers in the same order, and the same body.
pub proof fn lemma_accepted_keeps_inner(inner: ResponseView)
    ensures
        accepted_view(Some(inner)) == (ResponseView {
            status: 202,
            headers: inner.headers,
            body: inner.body,
        }),
{
    lemma_merged_into_empty(inner);
}

/// A created response around a nested value that gives its content carries the
/// entity tag of that content as its only `ETag`. Equal contents give equal
/// tags, and contents of distinct digests give distinct tags.
pub proof fn lemma_created_tagged(
    location: Seq<char>,
    inner: Option<ResponseView>,
    c1: Seq<u8>,
    c2: Seq<u8>,
)
    ensures
        header_is(
            created_view(location, inner, created_tag(true, Some(c1))).headers,
            etag_name(),
            etag_of(c1),
        ),
        c1 == c2 ==> created_view(location, inner, created_tag(true, Some(c1))) == created_view(
            location,
            inner,
            created_tag(true, Some(c2)),
        ),
        crate::etag::digest_of(c1) != crate::etag::digest_of(c2) ==> etag_of(c1) != etag_of(c2),
{
    lemma_created_headers_win(location, inner, Some(etag_of(c1)));
    crate::etag::lemma_strong_tag_injective(crate::etag::digest_of(c1), crate::etag::digest_of(c2));
}

/// A custom response has the custom status whatever status the nested response
/// had, and keeps the nested headers and body as they were.
pub proof fn lemma_custom_status(status: u16, inner: ResponseView)
    ensures
        custom_view(status, inner).status == status,
        custom_view(status, inner).headers == inner.headers,
        custom_view(status, inner).body == inner.body,
{
}

/// A response with only a status has that status, no header and no body.
pub proof fn lemma_bare_is_empty(code: u16)
    ensures
        bare_view(code) == (ResponseView { status: code, headers: Seq::empty(), body: None }),
{
}

} // verus!
