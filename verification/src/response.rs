//! What the service answers: a status, a body, and the failures that
//! become client-facing answers.

use crate::schema::{movie_views, Movie, MovieView};
use vstd::prelude::*;

verus! {

/// The JSON text of an object with one member: the name, and the value
/// as a string.
pub uninterp spec fn json_object(name: Seq<char>, value: Seq<char>) -> Seq<char>;

/// Renders `{"name": "value"}` with `serde_json`: a `serde_json::Map`
/// with the one member is wrapped in `serde_json::Value::Object` and
/// printed by the `Display` impl of `serde_json::Value`, which writes
/// compact JSON and escapes both strings. The text depends on the name
/// and the value alone.
#[verifier::external_body]
fn render_object(name: &str, value: &str) -> (body: String)
    ensures
        body@ == json_object(name@, value@),
{
    let mut object = serde_json::Map::new();
    object.insert(String::from(name), serde_json::Value::String(String::from(value)));
    serde_json::Value::Object(object).to_string()
}

/// The JSON text that reports a failure: an object whose one member,
/// `message`, is the failure's message.
pub open spec fn json_message(message: Seq<char>) -> Seq<char> {
    json_object("message"@, message)
}

/// The body of an answer.
#[derive(Clone, Debug, PartialEq)]
pub enum Body {
    /// No body.
    Empty,
    /// JSON text, ready to send.
    Json(String),
    /// One record, to be sent as a JSON object.
    Record(Movie),
    /// Records, to be sent as a JSON array in this order.
    Records(Vec<Movie>),
}

/// The mathematical value of a [`Body`].
pub enum BodyView {
    Empty,
    Json(Seq<char>),
    Record(MovieView),
    Records(Seq<MovieView>),
}

impl View for Body {
    type V = BodyView;

    open spec fn view(&self) -> BodyView {
        match self {
            Body::Empty => BodyView::Empty,
            Body::Json(text) => BodyView::Json(text@),
            Body::Record(movie) => BodyView::Record(movie@),
            Body::Records(movies) => BodyView::Records(movie_views(movies@)),
        }
    }
}

/// An answer of the service. Every body but the empty one is JSON.
#[derive(Clone, Debug, PartialEq)]
pub struct Response {
    pub status: u16,
    pub body: Body,
}

/// The mathematical value of a [`Response`].
pub struct ResponseView {
    pub status: u16,
    pub body: BodyView,
}

impl View for Response {
    type V = ResponseView;

    open spec fn view(&self) -> ResponseView {
        ResponseView { status: self.status, body: self.body@ }
    }
}

/// A failure that is answered to the client.
#[derive(Clone, Debug, PartialEq)]
pub enum ServiceError {
    /// The payload or the request is malformed, of the wrong type, or
    /// names a field outside the allow-list.
    Validation(String),
    /// The record is not in the store, or a read of the store failed.
    NotFound(String),
    /// The store failed on a write.
    Store(String),
}

/// The mathematical value of a [`ServiceError`].
pub enum ServiceErrorView {
    Validation(Seq<char>),
    NotFound(Seq<char>),
    Store(Seq<char>),
}

impl View for ServiceError {
    type V = ServiceErrorView;

    open spec fn view(&self) -> ServiceErrorView {
        match self {
            ServiceError::Validation(m) => ServiceErrorView::Validation(m@),
            ServiceError::NotFound(m) => ServiceErrorView::NotFound(m@),
            ServiceError::Store(m) => ServiceErrorView::Store(m@),
        }
    }
}

impl ServiceErrorView {
    /// 400 for a validation failure, 404 for a record not found, 500 for a
    /// failed write.
    pub open spec fn status(self) -> u16 {
        match self {
            ServiceErrorView::Validation(_) => 400,
            ServiceErrorView::NotFound(_) => 404,
            ServiceErrorView::Store(_) => 500,
        }
    }

    pub open spec fn message(self) -> Seq<char> {
        match self {
            ServiceErrorView::Validation(m) => m,
            ServiceErrorView::NotFound(m) => m,
            ServiceErrorView::Store(m) => m,
        }
    }

    /// The answer that reports the failure: its status, and its message
    /// as a JSON object.
    pub open spec fn response(self) -> ResponseView {
        ResponseView { status: self.status(), body: BodyView::Json(json_message(self.message())) }
    }
}

impl ServiceError {
    pub fn status(&self) -> (status: u16)
        ensures
            status == self@.status(),
    {
        match self {
            ServiceError::Validation(_) => 400,
            ServiceError::NotFound(_) => 404,
            ServiceError::Store(_) => 500,
        }
    }

    pub fn message(&self) -> (message: &String)
        ensures
            message@ == self@.message(),
    {
        match self {
            ServiceError::Validation(m) => m,
            ServiceError::NotFound(m) => m,
            ServiceError::Store(m) => m,
        }
    }

    /// The answer that reports the failure.
    pub fn response(&self) -> (response: Response)
        ensures
            response@ == self@.response(),
    {
        let body = render_object("message", self.message().as_str());
        Response { status: self.status(), body: Body::Json(body) }
    }
}

/// The search index could not be built from the initial scan of the store.
#[derive(Clone, Debug, PartialEq)]
pub struct BuildError {
    pub reason: String,
}

impl Response {
    /// The answer 200 without a body.
    pub open spec fn spec_ok() -> ResponseView {
        ResponseView { status: 200, body: BodyView::Empty }
    }

    /// The answer 200 that carries one record.
    pub open spec fn spec_record(movie: MovieView) -> ResponseView {
        ResponseView { status: 200, body: BodyView::Record(movie) }
    }

    /// The answer 200 that carries records in the given order.
    pub open spec fn spec_records(movies: Seq<MovieView>) -> ResponseView {
        ResponseView { status: 200, body: BodyView::Records(movies) }
    }

    pub fn ok() -> (response: Response)
        ensures
            response@ == Response::spec_ok(),
    {
        Response { status: 200, body: Body::Empty }
    }

    pub fn record(movie: Movie) -> (response: Response)
        ensures
            response@ == Response::spec_record(movie@),
    {
        Response { status: 200, body: Body::Record(movie) }
    }

    pub fn records(movies: Vec<Movie>) -> (response: Response)
        ensures
            response@ == Response::spec_records(movie_views(movies@)),
    {
        Response { status: 200, body: Body::Records(movies) }
    }
}

} // verus!
