//! Statuses, headers, responses and the builder that assembles them.
use vstd::prelude::*;

verus! {

/// An HTTP status code.
#[derive(Clone, Copy, Debug, PartialEq, Eq, Structural)]
pub struct Status {
    pub code: u16,
}

impl Status {
    pub fn new(code: u16) -> (r: Status)
        ensures
            r.code == code,
    {
        Status { code }
    }

    /// 200 OK, the status of a response whose builder was given none.
    pub fn ok() -> (r: Status)
        ensures
            r.code == 200,
    {
        Status { code: 200 }
    }

    /// 201 Created.
    pub fn created() -> (r: Status)
        ensures
            r.code == 201,
    {
        Status { code: 201 }
    }

    /// 202 Accepted.
    pub fn accepted() -> (r: Status)
        ensures
            r.code == 202,
    {
        Status { code: 202 }
    }

    /// 204 No Content.
    pub fn no_content() -> (r: Status)
        ensures
            r.code == 204,
    {
        Status { code: 204 }
    }

    /// 205 Reset Content.
    pub fn reset_content() -> (r: Status)
        ensures
            r.code == 205,
    {
        Status { code: 205 }
    }
}

/// The abstract value of a header: its name and its value.
pub type HeaderView = (Seq<char>, Seq<char>);

/// A header, as a name and a value.
#[derive(Debug)]
pub struct Header {
    pub name: String,
    pub value: String,
}

impl View for Header {
    type V = HeaderView;

    open spec fn view(&self) -> HeaderView {
        (self.name@, self.value@)
    }
}

impl Header {
    pub fn new(name: String, value: String) -> (r: Header)
        ensures
            r@ == (name@, value@),
    {
        Header { name, value }
    }
}

/// The views of a sequence of headers, in the same order.
pub open spec fn headers_view(hs: Seq<Header>) -> Seq<HeaderView> {
    hs.map_values(|h: Header| h@)
}

/// `hs` without any header named `name`; the others keep their order.
pub open spec fn without_name(hs: Seq<HeaderView>, name: Seq<char>) -> Seq<HeaderView>
    decreases hs.len(),
{
    if hs.len() == 0 {
        hs
    } else {
        let rest = without_name(hs.skip(1), name);
        if hs[0].0 == name {
            rest
        } else {
            seq![hs[0]].add(rest)
        }
    }
}

/// Sets header `h` in `hs`: any header of the same name goes, and `h` comes last.
pub open spec fn with_header(hs: Seq<HeaderView>, h: HeaderView) -> Seq<HeaderView> {
    without_name(hs, h.0).push(h)
}

/// The names of the headers of `hs`, in order.
pub open spec fn names(hs: Seq<HeaderView>) -> Seq<Seq<char>> {
    hs.map_values(|h: HeaderView| h.0)
}

/// `hs` without any header whose name is among `drop`; the others keep their order.
pub open spec fn without_names(hs: Seq<HeaderView>, drop: Seq<Seq<char>>) -> Seq<HeaderView>
    decreases hs.len(),
{
    if hs.len() == 0 {
        hs
    } else {
        let rest = without_names(hs.skip(1), drop);
        if drop.contains(hs[0].0) {
            rest
        } else {
            seq![hs[0]].add(rest)
        }
    }
}

/// `hs` holds header `name` with value `value`, and every header of that name
/// carries that value.
pub open spec fn header_is(hs: Seq<HeaderView>, name: Seq<char>, value: Seq<char>) -> bool {
    &&& hs.contains((name, value))
    &&& forall|g: HeaderView| #[trigger] hs.contains(g) && g.0 == name ==> g.1 == value
}

pub proof fn lemma_without_name(hs: Seq<HeaderView>, name: Seq<char>)
    ensures
        forall|i: int| 0 <= i < without_name(hs, name).len() ==> #[trigger] without_name(hs, name)[i].0 != name,
        forall|h: HeaderView| h.0 != name && hs.contains(h) ==> without_name(hs, name).contains(h),
        forall|h: HeaderView| without_name(hs, name).contains(h) ==> hs.contains(h),
    decreases hs.len(),
{
    if hs.len() > 0 {
        let rest = without_name(hs.skip(1), name);
        lemma_without_name(hs.skip(1), name);
        let w = without_name(hs, name);
        if hs[0].0 == name {
            assert(w == rest);
        } else {
            assert(w == seq![hs[0]].add(rest));
        }
        assert forall|h: HeaderView| h.0 != name && hs.contains(h) implies w.contains(h) by {
            let i = choose|i: int| 0 <= i < hs.len() && hs[i] == h;
            if i == 0 {
                assert(w[0] == h);
            } else {
                assert(hs.skip(1)[i - 1] == h);
                assert(hs.skip(1).contains(h));
                let j = choose|j: int| 0 <= j < rest.len() && rest[j] == h;
                if hs[0].0 == name {
                    assert(w[j] == h);
                } else {
                    assert(w[j + 1] == h);
                }
            }
        }
        assert forall|h: HeaderView| w.contains(h) implies hs.contains(h) by {
            let i = choose|i: int| 0 <= i < w.len() && w[i] == h;
            if hs[0].0 != name && i == 0 {
                assert(hs[0] == h);
            } else {
                let k = if hs[0].0 == name { i } else { i - 1 };
                assert(rest[k] == h);
                assert(rest.contains(h));
                assert(hs.skip(1).contains(h));
                let j = choose|j: int| 0 <= j < hs.skip(1).len() && hs.skip(1)[j] == h;
                assert(hs[j + 1] == h);
            }
        }
    }
}

/// Setting a header leaves it as the value of its name, and keeps every header
/// of another name.
pub proof fn lemma_with_header(hs: Seq<HeaderView>, h: HeaderView)
    ensures
        header_is(with_header(hs, h), h.0, h.1),
        forall|g: HeaderView| g.0 != h.0 && hs.contains(g) ==> with_header(hs, h).contains(g),
        forall|g: HeaderView|
            with_header(hs, h).contains(g) ==> g == h || (g.0 != h.0 && hs.contains(g)),
{
    lemma_without_name(hs, h.0);
    let wn = without_name(hs, h.0);
    let w = with_header(hs, h);
    let last = w.len() - 1;
    assert(w[last] == h);
    assert forall|g: HeaderView| g.0 != h.0 && hs.contains(g) implies w.contains(g) by {
        let j = choose|j: int| 0 <= j < wn.len() && wn[j] == g;
        assert(w[j] == g);
    }
    assert forall|g: HeaderView| w.contains(g) implies g == h || (g.0 != h.0 && hs.contains(g)) by {
        let j = choose|j: int| 0 <= j < w.len() && w[j] == g;
        if j < last {
            assert(wn[j] == g);
            assert(wn.contains(g));
        }
    }
}

/// The abstract value of a finished response.
pub struct ResponseView {
    pub status: u16,
    pub headers: Seq<HeaderView>,
    pub body: Option<Seq<u8>>,
}

/// The abstract value of a builder: a status is optional until the response is finished.
pub struct BuilderView {
    pub status: Option<u16>,
    pub headers: Seq<HeaderView>,
    pub body: Option<Seq<u8>>,
}

pub open spec fn bytes_view(b: Option<Vec<u8>>) -> Option<Seq<u8>> {
    match b {
        Some(v) => Some(v@),
        None => None,
    }
}

/// A finished response: a status, headers in the order they were set, and an optional body.
#[derive(Debug)]
pub struct Response {
    pub status: Status,
    pub headers: Vec<Header>,
    pub body: Option<Vec<u8>>,
}

impl View for Response {
    type V = ResponseView;

    open spec fn view(&self) -> ResponseView {
        ResponseView {
            status: self.status.code,
            headers: headers_view(self.headers@),
            body: bytes_view(self.body),
        }
    }
}

/// Accumulates a status, headers and a body, and then yields a [`Response`].
#[derive(Debug)]
pub struct ResponseBuilder {
    status: Option<Status>,
    headers: Vec<Header>,
    body: Option<Vec<u8>>,
}

impl View for ResponseBuilder {
    type V = BuilderView;

    closed spec fn view(&self) -> BuilderView {
        BuilderView {
            status: match self.status {
                Some(s) => Some(s.code),
                None => None,
            },
            headers: headers_view(self.headers@),
            body: bytes_view(self.body),
        }
    }
}

/// A builder with nothing set.
pub open spec fn empty_builder() -> BuilderView {
    BuilderView { status: None, headers: Seq::empty(), body: None }
}

/// A builder that holds what `r` holds.
pub open spec fn builder_of(r: ResponseView) -> BuilderView {
    BuilderView { status: Some(r.status), headers: r.headers, body: r.body }
}

/// `b` with the headers and the body of `r` merged in: every header of `r`, in
/// order, after the headers of `b` whose names `r` does not use. The status of
/// `b` stays.
pub open spec fn merged(b: BuilderView, r: ResponseView) -> BuilderView {
    BuilderView {
        status: b.status,
        headers: without_names(b.headers, names(r.headers)).add(r.headers),
        body: if r.body is Some { r.body } else { b.body },
    }
}

/// `b` with status `code`.
pub open spec fn with_status(b: BuilderView, code: u16) -> BuilderView {
    BuilderView { status: Some(code), ..b }
}

/// `b` with header `h` set.
pub open spec fn with_header_set(b: BuilderView, h: HeaderView) -> BuilderView {
    BuilderView { headers: with_header(b.headers, h), ..b }
}

/// The response that `b` finishes into; without a status it is 200.
pub open spec fn finished(b: BuilderView) -> ResponseView {
    ResponseView {
        status: match b.status {
            Some(c) => c,
            None => 200,
        },
        headers: b.headers,
        body: b.body,
    }
}

proof fn lemma_headers_view_skip(hs: Seq<Header>)
    requires
        hs.len() > 0,
    ensures
        headers_view(hs.subrange(1, hs.len() as int)) == headers_view(hs).skip(1),
{
    assert(headers_view(hs.subrange(1, hs.len() as int)) =~= headers_view(hs).skip(1));
}

impl Response {
    /// A new builder with no status, no headers and no body.
    pub fn build() -> (r: ResponseBuilder)
        ensures
            r@ == empty_builder(),
    {
        let r = ResponseBuilder { status: None, headers: Vec::new(), body: None };
        assert(r@.headers =~= Seq::<HeaderView>::empty());
        r
    }

    /// A new builder that holds the status, the headers and the body of `response`.
    pub fn build_from(response: Response) -> (r: ResponseBuilder)
        ensures
            r@ == builder_of(response@),
    {
        ResponseBuilder {
            status: Some(response.status),
            headers: response.headers,
            body: response.body,
        }
    }
}

impl ResponseBuilder {
    /// Sets the status, in place of any status set before.
    pub fn status(&mut self, status: Status)
        ensures
            final(self)@ == with_status(old(self)@, status.code),
    {
        self.status = Some(status);
    }

    /// Sets the body, in place of any body set before.
    pub fn body(&mut self, body: Vec<u8>)
        ensures
            final(self)@ == (BuilderView { body: Some(body@), ..old(self)@ }),
    {
        self.body = Some(body);
    }

    /// Sets a header: any header of the same name is dropped and `h` comes last.
    pub fn header(&mut self, h: Header)
        ensures
            final(self)@ == with_header_set(old(self)@, h@),
    {
        let ghost orig = headers_view(self.headers@);
        let mut rest: Vec<Header> = Vec::new();
        std::mem::swap(&mut rest, &mut self.headers);
        let mut kept: Vec<Header> = Vec::new();
        assert(headers_view(kept@) =~= Seq::<HeaderView>::empty());
        assert(Seq::<HeaderView>::empty().add(without_name(orig, h.name@)) =~= without_name(orig, h.name@));
        while rest.len() > 0
            invariant
                without_name(orig, h.name@) == headers_view(kept@).add(
                    without_name(headers_view(rest@), h.name@),
                ),
            decreases rest.len(),
        {
            let ghost before = headers_view(rest@);
            let ghost kv = headers_view(kept@);
            proof {
                lemma_headers_view_skip(rest@);
            }
            let g = rest.remove(0);
            assert(before[0] == g@);
            assert(headers_view(rest@) == before.skip(1));
            if g.name == h.name {
            } else {
                kept.push(g);
                assert(headers_view(kept@) =~= kv.push(g@));
                assert(kv.add(seq![g@].add(without_name(before.skip(1), h.name@))) =~= kv.push(
                    g@,
                ).add(without_name(before.skip(1), h.name@)));
            }
        }
        assert(without_name(headers_view(rest@), h.name@) =~= Seq::<HeaderView>::empty());
        let ghost kv = headers_view(kept@);
        assert(kv.add(Seq::<HeaderView>::empty()) =~= kv);
        kept.push(h);
        assert(headers_view(kept@) =~= kv.push(h@));
        self.headers = kept;
    }

    /// Merges the headers and the body of `other` into this builder. Every header
    /// of `other` is kept, in order, after the headers of this builder whose names
    /// `other` does not use; the body of `other`, where it has one, replaces this
    /// one. The status is not touched.
    pub fn merge(&mut self, other: Response)
        ensures
            final(self)@ == merged(old(self)@, other@),
    {
        let ghost orig = headers_view(self.headers@);
        let ghost drop = names(other@.headers);
        let mut incoming = other.headers;
        let mut rest: Vec<Header> = Vec::new();
        std::mem::swap(&mut rest, &mut self.headers);
        let mut kept: Vec<Header> = Vec::new();
        assert(headers_view(kept@) =~= Seq::<HeaderView>::empty());
        assert(Seq::<HeaderView>::empty().add(without_names(orig, drop)) =~= without_names(
            orig,
            drop,
        ));
        while rest.len() > 0
            invariant
                drop == names(headers_view(incoming@)),
                without_names(orig, drop) == headers_view(kept@).add(
                    without_names(headers_view(rest@), drop),
                ),
            decreases rest.len(),
        {
            let ghost before = headers_view(rest@);
            let ghost kv = headers_view(kept@);
            proof {
                lemma_headers_view_skip(rest@);
            }
            let g = rest.remove(0);
            assert(before[0] == g@);
            assert(headers_view(rest@) == before.skip(1));
            if names_contain(&incoming, &g.name) {
            } else {
                kept.push(g);
                assert(headers_view(kept@) =~= kv.push(g@));
                assert(kv.add(seq![g@].add(without_names(before.skip(1), drop))) =~= kv.push(
                    g@,
                ).add(without_names(before.skip(1), drop)));
            }
        }
        let ghost kv = headers_view(kept@);
        let ghost iv = headers_view(incoming@);
        assert(kv.add(Seq::<HeaderView>::empty()) =~= kv);
        kept.append(&mut incoming);
        assert(headers_view(kept@) =~= kv.add(iv));
        self.headers = kept;
        match other.body {
            Some(b) => {
                self.body = Some(b);
            },
            None => {},
        }
    }

    /// Finishes the response. A builder that was given no status finishes as 200.
    pub fn ok(self) -> (r: Result<Response, Status>)
        ensures
            r matches Ok(resp) && resp@ == finished(self@),
    {
        let status = match self.status {
            Some(s) => s,
            None => Status::ok(),
        };
        Ok(Response { status, headers: self.headers, body: self.body })
    }
}

/// Whether some header of `hs` is named `name`.
fn names_contain(hs: &Vec<Header>, name: &String) -> (r: bool)
    ensures
        r == names(headers_view(hs@)).contains(name@),
{
    let ghost ns = names(headers_view(hs@));
    let mut i: usize = 0;
    while i < hs.len()
        invariant
            i <= hs@.len(),
            ns == names(headers_view(hs@)),
            forall|j: int| 0 <= j < i ==> ns[j] != name@,
        decreases hs@.len() - i,
    {
        assert(ns[i as int] == hs@[i as int].name@);
        if hs[i].name == *name {
            assert(ns[i as int] == name@);
            return true;
        }
        i = i + 1;
    }
    assert forall|x: Seq<char>| ns.contains(x) implies x != name@ by {
        let j = choose|j: int| 0 <= j < ns.len() && ns[j] == x;
    }
    false
}

} // verus!
