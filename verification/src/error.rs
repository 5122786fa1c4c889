//! The error of the controller, and how it is answered over HTTP.

use vstd::prelude::*;

use crate::text::join2;

verus! {

broadcast use vstd::string::group_string_axioms;

/// The result of an operation of the controller.
pub type AppResult<T> = Result<T, AppError>;

/// Why an operation of the controller failed.
#[derive(Debug, PartialEq, Eq)]
pub enum AppError {
    Configuration(String),
    Validation(String),
    Unauthorized,
    Forbidden,
    NotFound(String),
    Conflict(String),
    RateLimited,
    Database(String),
    Hypervisor(String),
    Template(String),
    Io(String),
    Internal(String),
}

/// What an [`AppError`] holds.
pub enum AppErrorView {
    Configuration(Seq<char>),
    Validation(Seq<char>),
    Unauthorized,
    Forbidden,
    NotFound(Seq<char>),
    Conflict(Seq<char>),
    RateLimited,
    Database(Seq<char>),
    Hypervisor(Seq<char>),
    Template(Seq<char>),
    Io(Seq<char>),
    Internal(Seq<char>),
}

impl View for AppError {
    type V = AppErrorView;

    open spec fn view(&self) -> AppErrorView {
        match *self {
            AppError::Configuration(s) => AppErrorView::Configuration(s@),
            AppError::Validation(s) => AppErrorView::Validation(s@),
            AppError::Unauthorized => AppErrorView::Unauthorized,
            AppError::Forbidden => AppErrorView::Forbidden,
            AppError::NotFound(s) => AppErrorView::NotFound(s@),
            AppError::Conflict(s) => AppErrorView::Conflict(s@),
            AppError::RateLimited => AppErrorView::RateLimited,
            AppError::Database(s) => AppErrorView::Database(s@),
            AppError::Hypervisor(s) => AppErrorView::Hypervisor(s@),
            AppError::Template(s) => AppErrorView::Template(s@),
            AppError::Io(s) => AppErrorView::Io(s@),
            AppError::Internal(s) => AppErrorView::Internal(s@),
        }
    }
}

/// The HTTP status of each error.
pub open spec fn status_of(e: AppErrorView) -> u16 {
    match e {
        AppErrorView::Validation(_) => 400,
        AppErrorView::Unauthorized => 401,
        AppErrorView::Forbidden => 403,
        AppErrorView::NotFound(_) => 404,
        AppErrorView::Conflict(_) => 409,
        AppErrorView::RateLimited => 429,
        AppErrorView::Hypervisor(_) => 503,
        _ => 500,
    }
}

/// The code of each error.
pub open spec fn code_of(e: AppErrorView) -> Seq<char> {
    match e {
        AppErrorView::Configuration(_) => "configuration_error"@,
        AppErrorView::Validation(_) => "validation_error"@,
        AppErrorView::Unauthorized => "unauthorized"@,
        AppErrorView::Forbidden => "forbidden"@,
        AppErrorView::NotFound(_) => "not_found"@,
        AppErrorView::Conflict(_) => "conflict"@,
        AppErrorView::RateLimited => "rate_limited"@,
        AppErrorView::Database(_) => "database_error"@,
        AppErrorView::Hypervisor(_) => "hypervisor_error"@,
        AppErrorView::Template(_) => "template_error"@,
        AppErrorView::Io(_) => "io_error"@,
        AppErrorView::Internal(_) => "internal_error"@,
    }
}

/// The full text of each error.
pub open spec fn text_of_error(e: AppErrorView) -> Seq<char> {
    match e {
        AppErrorView::Configuration(s) => "configuration error: "@ + s,
        AppErrorView::Validation(s) => "validation failed: "@ + s,
        AppErrorView::Unauthorized => "authentication required"@,
        AppErrorView::Forbidden => "permission denied"@,
        AppErrorView::NotFound(s) => s + " was not found"@,
        AppErrorView::Conflict(s) => "conflict: "@ + s,
        AppErrorView::RateLimited => "request limit exceeded"@,
        AppErrorView::Database(s) => "database operation failed: "@ + s,
        AppErrorView::Hypervisor(s) => "hypervisor operation failed: "@ + s,
        AppErrorView::Template(s) => "template rendering failed: "@ + s,
        AppErrorView::Io(s) => "I/O operation failed: "@ + s,
        AppErrorView::Internal(s) => "internal error: "@ + s,
    }
}

/// An error whose details stay inside the server.
pub open spec fn is_private(e: AppErrorView) -> bool {
    match e {
        AppErrorView::Database(_) => true,
        AppErrorView::Template(_) => true,
        AppErrorView::Io(_) => true,
        AppErrorView::Internal(_) => true,
        _ => false,
    }
}

/// What a client is told of each error.
pub open spec fn public_text(e: AppErrorView) -> Seq<char> {
    if is_private(e) {
        "The server could not complete the request"@
    } else {
        text_of_error(e)
    }
}

impl AppError {
    /// The HTTP status of the error.
    pub fn status_code(&self) -> (r: u16)
        ensures
            r == status_of(self@),
    {
        match self {
            AppError::Validation(_) => 400,
            AppError::Unauthorized => 401,
            AppError::Forbidden => 403,
            AppError::NotFound(_) => 404,
            AppError::Conflict(_) => 409,
            AppError::RateLimited => 429,
            AppError::Hypervisor(_) => 503,
            AppError::Configuration(_)
            | AppError::Database(_)
            | AppError::Template(_)
            | AppError::Io(_)
            | AppError::Internal(_) => 500,
        }
    }

    /// The code of the error.
    pub fn code(&self) -> (r: &'static str)
        ensures
            r@ == code_of(self@),
    {
        match self {
            AppError::Configuration(_) => "configuration_error",
            AppError::Validation(_) => "validation_error",
            AppError::Unauthorized => "unauthorized",
            AppError::Forbidden => "forbidden",
            AppError::NotFound(_) => "not_found",
            AppError::Conflict(_) => "conflict",
            AppError::RateLimited => "rate_limited",
            AppError::Database(_) => "database_error",
            AppError::Hypervisor(_) => "hypervisor_error",
            AppError::Template(_) => "template_error",
            AppError::Io(_) => "io_error",
            AppError::Internal(_) => "internal_error",
        }
    }

    /// The full text of the error.
    pub fn text(&self) -> (r: String)
        ensures
            r@ == text_of_error(self@),
    {
        match self {
            AppError::Configuration(s) => join2("configuration error: ", s.as_str()),
            AppError::Validation(s) => join2("validation failed: ", s.as_str()),
            AppError::Unauthorized => "authentication required".to_owned(),
            AppError::Forbidden => "permission denied".to_owned(),
            AppError::NotFound(s) => join2(s.as_str(), " was not found"),
            AppError::Conflict(s) => join2("conflict: ", s.as_str()),
            AppError::RateLimited => "request limit exceeded".to_owned(),
            AppError::Database(s) => join2("database operation failed: ", s.as_str()),
            AppError::Hypervisor(s) => join2("hypervisor operation failed: ", s.as_str()),
            AppError::Template(s) => join2("template rendering failed: ", s.as_str()),
            AppError::Io(s) => join2("I/O operation failed: ", s.as_str()),
            AppError::Internal(s) => join2("internal error: ", s.as_str()),
        }
    }

    /// What a client is told of the error.
    pub fn public_message(&self) -> (r: String)
        ensures
            r@ == public_text(self@),
    {
        match self {
            AppError::Database(_)
            | AppError::Template(_)
            | AppError::Io(_)
            | AppError::Internal(_) => "The server could not complete the request".to_owned(),
            _ => self.text(),
        }
    }

    /// The answer to a request that failed with this error.
    pub fn into_response(&self, request_id: String) -> (r: ErrorResponse)
        ensures
            r@ == error_response(self@, request_id@),
    {
        let status: u16 = self.status_code();
        ErrorResponse {
            status,
            success: false,
            code: self.code().to_owned(),
            message: self.public_message(),
            request_id,
            retry_after: if status == 429 {
                Some(60)
            } else {
                None
            },
            logged: status >= 500,
        }
    }
}

/// The answer to a request that failed.
#[derive(Debug, PartialEq, Eq)]
pub struct ErrorResponse {
    pub status: u16,
    pub success: bool,
    pub code: String,
    pub message: String,
    pub request_id: String,
    /// Seconds after which the client may try again.
    pub retry_after: Option<u32>,
    /// Whether the details go to the server log.
    pub logged: bool,
}

/// What a [`ErrorResponse`] holds, with texts as character sequences.
#[verifier::ext_equal]
pub struct ErrorResponseView {
    pub status: u16,
    pub success: bool,
    pub code: Seq<char>,
    pub message: Seq<char>,
    pub request_id: Seq<char>,
    pub retry_after: Option<u32>,
    pub logged: bool,
}

impl View for ErrorResponse {
    type V = ErrorResponseView;

    open spec fn view(&self) -> ErrorResponseView {
        ErrorResponseView {
            status: self.status,
            success: self.success,
            code: self.code@,
            message: self.message@,
            request_id: self.request_id@,
            retry_after: self.retry_after,
            logged: self.logged,
        }
    }
}

impl Clone for ErrorResponse {
    fn clone(&self) -> (r: ErrorResponse)
        ensures
            r@ == self@,
    {
        ErrorResponse {
            status: self.status,
            success: self.success,
            code: self.code.clone(),
            message: self.message.clone(),
            request_id: self.request_id.clone(),
            retry_after: self.retry_after,
            logged: self.logged,
        }
    }
}

/// The answer to a request that failed with an error.
pub open spec fn error_response(e: AppErrorView, request_id: Seq<char>) -> ErrorResponseView {
    ErrorResponseView {
        status: status_of(e),
        success: false,
        code: code_of(e),
        message: public_text(e),
        request_id,
        retry_after: if e == AppErrorView::RateLimited {
            Some(60u32)
        } else {
            None
        },
        logged: status_of(e) >= 500,
    }
}

/// The details of a server-side failure never reach a client: errors of one private kind
/// are answered alike, whatever their text.
pub proof fn private_details_stay_private(a: AppErrorView, b: AppErrorView, request_id: Seq<char>)
    requires
        is_private(a),
        is_private(b),
        code_of(a) == code_of(b),
    ensures
        error_response(a, request_id) == error_response(b, request_id),
{
}

/// A `Validation` error with a fixed text.
pub fn validation(text: &str) -> (r: AppError)
    ensures
        r@ == AppErrorView::Validation(text@),
{
    AppError::Validation(text.to_owned())
}

/// A `Conflict` error with a fixed text.
pub fn conflict(text: &str) -> (r: AppError)
    ensures
        r@ == AppErrorView::Conflict(text@),
{
    AppError::Conflict(text.to_owned())
}

/// A `NotFound` error with a fixed text.
pub fn not_found(text: &str) -> (r: AppError)
    ensures
        r@ == AppErrorView::NotFound(text@),
{
    AppError::NotFound(text.to_owned())
}

/// A `Configuration` error with a fixed text.
pub fn configuration(text: &str) -> (r: AppError)
    ensures
        r@ == AppErrorView::Configuration(text@),
{
    AppError::Configuration(text.to_owned())
}

/// An `Internal` error with a fixed text.
pub fn internal(text: &str) -> (r: AppError)
    ensures
        r@ == AppErrorView::Internal(text@),
{
    AppError::Internal(text.to_owned())
}

/// An error is the fault of who asked exactly where its status is of the four hundreds; then,
/// and only then or where the configuration or the hypervisor is at fault, its text is shown.
pub proof fn whose_fault_an_error_is(e: AppErrorView)
    ensures
        400 <= status_of(e) < 500 <==> e is Validation || e is Unauthorized || e is Forbidden
            || e is NotFound || e is Conflict || e is RateLimited,
        is_private(e) ==> status_of(e) == 500,
        400 <= status_of(e) < 500 ==> !is_private(e) && public_text(e) == text_of_error(e),
        !is_private(e) <==> 400 <= status_of(e) < 500 || e is Configuration || e is Hypervisor,
        status_of(e) == 503 <==> e is Hypervisor,
        status_of(e) == 404 <==> e is NotFound,
        status_of(e) == 409 <==> e is Conflict,
        status_of(e) == 401 <==> e is Unauthorized,
        status_of(e) == 403 <==> e is Forbidden,
        status_of(e) == 429 <==> e is RateLimited,
{
}

} // verus!
