//! The values exchanged over the HTTP surface.
use vstd::prelude::*;

verus! {

/// Message of a lookup that found nothing.
pub const NOT_FOUND_MESSAGE: &'static str = "No matching records found";

/// Whether the server runs, and where.
#[derive(Debug, Clone)]
pub struct ServerInfo {
    pub running: bool,
    pub port: Option<u16>,
    pub url: Option<String>,
}

/// A question to answer: its text, optional answer options, and an optional
/// question type (`single`, `multiple`, `judgement`, `completion`, or other).
#[derive(Debug)]
pub struct QueryRequest {
    pub title: String,
    pub options: Option<String>,
    pub query_type: Option<String>,
}

/// The final answer for one ask.
#[derive(Debug)]
pub struct ModelCallResponseRequest {
    pub request_id: String,
    pub content: String,
}

/// Partial output for one ask: a sign that the answerer is still working.
#[derive(Debug)]
pub struct ModelCallProgressRequest {
    pub request_id: String,
    pub content: String,
}

/// Reply to a query: `code` is 1 on success, 0 when nothing was found, -1 on error.
#[derive(Debug)]
pub struct QueryResponse {
    pub code: i32,
    pub data: Option<QueryData>,
    pub message: Option<String>,
}

/// A question with its answer, and whether the answer was generated.
#[derive(Debug, Clone)]
pub struct QueryData {
    pub question: String,
    pub answer: String,
    pub is_ai: bool,
}

/// A flat record of a request, as an external log consumer reads it.
#[derive(Debug, Clone)]
pub struct RequestLog {
    pub id: String,
    pub timestamp: i64,
    pub method: String,
    pub path: String,
    pub status: u16,
    pub ip: String,
    pub user_agent: String,
    pub response_time: u64,
}

pub struct QueryDataView {
    pub question: Seq<char>,
    pub answer: Seq<char>,
    pub is_ai: bool,
}

impl View for QueryData {
    type V = QueryDataView;

    open spec fn view(&self) -> QueryDataView {
        QueryDataView { question: self.question@, answer: self.answer@, is_ai: self.is_ai }
    }
}

pub struct QueryResponseView {
    pub code: i32,
    pub data: Option<QueryDataView>,
    pub message: Option<Seq<char>>,
}

impl View for QueryResponse {
    type V = QueryResponseView;

    open spec fn view(&self) -> QueryResponseView {
        QueryResponseView {
            code: self.code,
            data: match self.data {
                Some(d) => Some(d@),
                None => None,
            },
            message: self.message.deep_view(),
        }
    }
}

pub open spec fn success_view(data: QueryDataView) -> QueryResponseView {
    QueryResponseView { code: 1, data: Some(data), message: None }
}

pub open spec fn error_view(message: Seq<char>) -> QueryResponseView {
    QueryResponseView { code: -1i32, data: None, message: Some(message) }
}

impl QueryResponse {
    /// A successful reply carrying `data`.
    pub fn success(data: QueryData) -> (r: Self)
        ensures
            r@ == success_view(data@),
    {
        QueryResponse { code: 1, data: Some(data), message: None }
    }

    /// A reply saying that nothing matched.
    pub fn not_found() -> (r: Self)
        ensures
            r@ == (QueryResponseView { code: 0, data: None, message: Some(NOT_FOUND_MESSAGE@) }),
    {
        QueryResponse { code: 0, data: None, message: Some(NOT_FOUND_MESSAGE.to_owned()) }
    }

    /// An error reply carrying `message`.
    pub fn error(message: String) -> (r: Self)
        ensures
            r@ == error_view(message@),
    {
        QueryResponse { code: -1, data: None, message: Some(message) }
    }
}

} // verus!
