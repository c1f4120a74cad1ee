//! The shape of a response as this layer produces it: a status, a body
//! with its content type, an optional redirect location, an optional
//! `Set-Cookie` value, and the fixed cache-forbidding headers that go out
//! on every response.

use vstd::prelude::*;

verus! {

/// Status of a response.
#[derive(Clone, Copy, PartialEq, Eq, Structural, Debug)]
pub enum Status {
    Success,
    SeeOther,
    TemporaryRedirect,
    BadRequest,
    Unauthorized,
    NotFound,
    InternalError,
}

impl Status {
    /// The wire code of this status.
    pub fn code(&self) -> (r: u16)
        ensures
            r == self.code_spec(),
    {
        match self {
            Status::Success => 200,
            Status::SeeOther => 303,
            Status::TemporaryRedirect => 307,
            Status::BadRequest => 400,
            Status::Unauthorized => 401,
            Status::NotFound => 404,
            Status::InternalError => 500,
        }
    }

    /// The wire code of this status.
    pub open spec fn code_spec(&self) -> u16 {
        match self {
            Status::Success => 200,
            Status::SeeOther => 303,
            Status::TemporaryRedirect => 307,
            Status::BadRequest => 400,
            Status::Unauthorized => 401,
            Status::NotFound => 404,
            Status::InternalError => 500,
        }
    }
}

/// What kind of body a response carries.
#[derive(Clone, Copy, PartialEq, Eq, Structural, Debug)]
pub enum ContentKind {
    Html,
    Json,
}

/// One response of this layer.
pub struct HttpResponse {
    pub status: Status,
    pub content_type: ContentKind,
    pub body: String,
    pub location: Option<String>,
    pub set_cookie: Option<String>,
}

/// Mathematical image of a response.
pub struct ResponseView {
    pub status: Status,
    pub content_type: ContentKind,
    pub body: Seq<char>,
    pub location: Option<Seq<char>>,
    pub set_cookie: Option<Seq<char>>,
}

impl View for HttpResponse {
    type V = ResponseView;

    open spec fn view(&self) -> ResponseView {
        ResponseView {
            status: self.status,
            content_type: self.content_type,
            body: self.body@,
            location: match self.location {
                Some(l) => Some(l@),
                None => None,
            },
            set_cookie: match self.set_cookie {
                Some(c) => Some(c@),
                None => None,
            },
        }
    }
}

/// The value of the cache-control header every response carries.
pub open spec fn cache_control_value() -> Seq<char> {
    "no-store, no-cache, must-revalidate, private"@
}

/// The value of the connection header every response carries.
pub open spec fn connection_value() -> Seq<char> {
    "keep-alive"@
}

/// The content-type value of a body kind.
pub open spec fn content_type_value(k: ContentKind) -> Seq<char> {
    match k {
        ContentKind::Html => "text/html; charset=utf-8"@,
        ContentKind::Json => "application/json; charset=utf-8"@,
    }
}

/// Every header this layer puts on a response, in order: the two fixed
/// cache-forbidding headers, the content type, then the redirect location
/// and the cookie where the response has them.
pub open spec fn headers_spec(rv: ResponseView) -> Seq<(Seq<char>, Seq<char>)> {
    seq![
        ("Cache-Control"@, cache_control_value()),
        ("Connection"@, connection_value()),
        ("Content-Type"@, content_type_value(rv.content_type)),
    ] + (match rv.location {
        Some(l) => seq![("Location"@, l)],
        None => Seq::empty(),
    }) + (match rv.set_cookie {
        Some(c) => seq![("Set-Cookie"@, c)],
        None => Seq::empty(),
    })
}

/// The views of rendered header pairs.
pub open spec fn header_views(hs: Seq<(String, String)>) -> Seq<(Seq<char>, Seq<char>)> {
    hs.map_values(|h: (String, String)| (h.0@, h.1@))
}

/// Renders every header of `r`, in order.
pub fn response_headers(r: &HttpResponse) -> (hs: Vec<(String, String)>)
    ensures
        header_views(hs@) == headers_spec(r@),
{
    let mut hs: Vec<(String, String)> = Vec::new();
    hs.push(
        (
            String::from_str("Cache-Control"),
            String::from_str("no-store, no-cache, must-revalidate, private"),
        ),
    );
    hs.push((String::from_str("Connection"), String::from_str("keep-alive")));
    let ct = match r.content_type {
        ContentKind::Html => String::from_str("text/html; charset=utf-8"),
        ContentKind::Json => String::from_str("application/json; charset=utf-8"),
    };
    hs.push((String::from_str("Content-Type"), ct));
    match &r.location {
        Some(l) => {
            hs.push((String::from_str("Location"), l.clone()));
        },
        None => {},
    }
    match &r.set_cookie {
        Some(c) => {
            hs.push((String::from_str("Set-Cookie"), c.clone()));
        },
        None => {},
    }
    proof {
        assert(header_views(hs@) =~= headers_spec(r@));
    }
    hs
}

/// A plain response: status, body, content type; no redirect, no cookie.
pub fn response(status: Status, body: &str, content_type: ContentKind) -> (r: HttpResponse)
    ensures
        r@.status == status,
        r@.content_type == content_type,
        r@.body == body@,
        r@.location is None,
        r@.set_cookie is None,
{
    HttpResponse {
        status,
        content_type,
        body: String::from_str(body),
        location: None,
        set_cookie: None,
    }
}

} // verus!
