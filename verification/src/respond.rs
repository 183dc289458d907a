use vstd::prelude::*;

verus! {

/// Calls `http::StatusCode::as_u16` on `StatusCode::OK`, which the crate
/// defines as status 200.
#[verifier::external_body]
fn ok_status() -> (c: u16)
    ensures
        c == 200,
{
    http::StatusCode::OK.as_u16()
}

/// Calls `http::StatusCode::as_u16` on `StatusCode::INTERNAL_SERVER_ERROR`,
/// which the crate defines as status 500.
#[verifier::external_body]
fn internal_error_status() -> (c: u16)
    ensures
        c == 500,
{
    http::StatusCode::INTERNAL_SERVER_ERROR.as_u16()
}

/// The body of a successful answer: a status code and the documents found.
pub struct OpenResponse<T> {
    pub code: u16,
    pub data: Vec<T>,
}

impl<T> OpenResponse<T> {
    pub fn new(code: u16, data: Vec<T>) -> (r: Self)
        ensures
            r.code == code,
            r.data == data,
    {
        OpenResponse { code, data }
    }
}

/// The body of a failed answer: a status code and a message.
pub struct ErrorResponse<'a> {
    pub code: u16,
    pub message: &'a str,
}

impl<'a> ErrorResponse<'a> {
    pub fn new(code: u16, message: &'a str) -> (r: Self)
        ensures
            r.code == code,
            r.message == message,
    {
        ErrorResponse { code, message }
    }
}

/// What reading the result of a document query can bring.
#[derive(Clone, Copy, Debug, PartialEq, Eq, Structural)]
pub enum FetchEvent {
    /// The query itself failed.
    QueryFailed,
    /// The cursor gave one more document.
    Document,
    /// The cursor failed while giving a document.
    CursorFailed,
    /// The cursor has no more documents.
    Exhausted,
}

/// What to do next while answering a document query.
#[derive(Clone, Debug, PartialEq, Eq)]
pub enum FetchAction {
    /// Keep the document just read, and read on.
    KeepDocument,
    /// Answer with the kept documents under status `code`.
    SendDocuments { code: u16 },
    /// Answer with an internal server error whose body holds `code` and
    /// `message`.
    SendError { code: u16, message: String },
}

/// Decides the next step of answering a document query: documents are kept
/// until the cursor ends, the end answers with the kept documents and status
/// 200, and a failure answers with status 500 and a message that says where
/// it failed.
pub fn respond_step(event: FetchEvent) -> (r: FetchAction)
    ensures
        match event {
            FetchEvent::Document => r is KeepDocument,
            FetchEvent::Exhausted => r matches FetchAction::SendDocuments { code } && code == 200,
            FetchEvent::QueryFailed => r matches FetchAction::SendError { code, message } && code
                == 500 && message@ == "fetch data error"@,
            FetchEvent::CursorFailed => r matches FetchAction::SendError { code, message } && code
                == 500 && message@ == "fetch data cursor error"@,
        },
{
    match event {
        FetchEvent::QueryFailed => FetchAction::SendError {
            code: internal_error_status(),
            message: String::from_str("fetch data error"),
        },
        FetchEvent::Document => FetchAction::KeepDocument,
        FetchEvent::CursorFailed => FetchAction::SendError {
            code: internal_error_status(),
            message: String::from_str("fetch data cursor error"),
        },
        FetchEvent::Exhausted => FetchAction::SendDocuments { code: ok_status() },
    }
}

} // verus!
