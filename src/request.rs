use vstd::prelude::*;

verus! {

/// Common status codes, for building responses.
pub const OK: u16 = 200;

pub const UNAUTHORIZED: u16 = 401;

pub const NOT_FOUND: u16 = 404;

pub const INTERNAL_SERVER_ERROR: u16 = 500;

/// The method of a request; the pipeline only ever compares it.
#[derive(Clone, Copy, Debug, PartialEq, Eq, Structural)]
pub enum Method {
    Options,
    Get,
    Post,
    Put,
    Delete,
    Head,
    Trace,
    Connect,
    Patch,
}

/// The path of the request as it was received, kept by the first path fork
/// that rewrote it.
#[derive(Clone, Debug)]
pub struct OriginalUrl {
    pub path: Vec<String>,
}

/// What the pipeline sees of a request: its method, its path as a list of
/// segments, its headers, and the slot that keeps the original path.
#[derive(Clone, Debug)]
pub struct Request {
    pub method: Method,
    pub path: Vec<String>,
    pub headers: Vec<(String, String)>,
    pub original_url: Option<OriginalUrl>,
}

/// The abstract value of a request.
pub struct RequestView {
    pub method: Method,
    pub path: Seq<Seq<char>>,
    pub headers: Seq<(Seq<char>, Seq<char>)>,
    pub original_url: Option<Seq<Seq<char>>>,
}

/// The characters of each string of a sequence.
pub open spec fn strings_view(v: Seq<String>) -> Seq<Seq<char>> {
    v.map_values(|s: String| s@)
}

impl View for OriginalUrl {
    type V = Seq<Seq<char>>;

    open spec fn view(&self) -> Seq<Seq<char>> {
        strings_view(self.path@)
    }
}

impl View for Request {
    type V = RequestView;

    open spec fn view(&self) -> RequestView {
        RequestView {
            method: self.method,
            path: strings_view(self.path@),
            headers: self.headers@.map_values(|h: (String, String)| (h.0@, h.1@)),
            original_url: match self.original_url {
                Some(u) => Some(u@),
                None => None,
            },
        }
    }
}

impl OriginalUrl {
    /// The segments of the original path.
    pub fn path(&self) -> (r: &Vec<String>)
        ensures
            strings_view(r@) == self@,
    {
        &self.path
    }
}

impl Request {
    /// A request with the given method and path segments, no headers, and an
    /// empty original-path slot.
    pub fn new(method: Method, path: Vec<String>) -> (r: Request)
        ensures
            r@.method == method,
            r@.path == strings_view(path@),
            r@.headers.len() == 0,
            r@.original_url is None,
    {
        Request { method, path, headers: Vec::new(), original_url: None }
    }

    /// The path as received, if a path fork has rewritten it.
    pub fn original_url(&self) -> (r: Option<&OriginalUrl>)
        ensures
            match r {
                Some(u) => self@.original_url == Some(u@),
                None => self@.original_url is None,
            },
    {
        match &self.original_url {
            Some(u) => Some(u),
            None => None,
        }
    }
}

/// A response: an optional status and an optional body.
#[derive(Clone, Debug, PartialEq, Eq)]
pub struct Response {
    pub status: Option<u16>,
    pub body: Option<Vec<u8>>,
}

impl Response {
    /// A response with neither status nor body.
    pub fn new() -> (r: Response)
        ensures
            r.status is None,
            r.body is None,
    {
        Response { status: None, body: None }
    }

    /// A response with the given status and no body.
    pub fn with_status(status: u16) -> (r: Response)
        ensures
            r.status == Some(status),
            r.body is None,
    {
        Response { status: Some(status), body: None }
    }

    /// A response with the given status and body.
    pub fn with_body(status: u16, body: Vec<u8>) -> (r: Response)
        ensures
            r.status == Some(status),
            r.body == Some(body),
    {
        Response { status: Some(status), body: Some(body) }
    }
}

/// The failure that the pipeline itself raises.
#[derive(Clone, Copy, Debug, PartialEq, Eq, Structural)]
pub enum Error {
    /// No middleware was left in the pipeline to handle the request.
    NoHandler,
}

impl Error {
    pub fn description(&self) -> (r: &'static str)
        ensures
            r@ == error_description(*self),
    {
        match self {
            Error::NoHandler => "Missing handler",
        }
    }

    /// The error as a message for a log.
    pub fn to_string(&self) -> (r: String)
        ensures
            r@ == error_message(*self),
    {
        match self {
            Error::NoHandler => String::from_str("Pipeline error (Missing handler)"),
        }
    }
}

pub open spec fn error_description(e: Error) -> Seq<char> {
    match e {
        Error::NoHandler => "Missing handler"@,
    }
}

pub open spec fn error_message(e: Error) -> Seq<char> {
    match e {
        Error::NoHandler => "Pipeline error (Missing handler)"@,
    }
}

/// Where a failure comes from: the pipeline itself, or a middleware, which
/// describes it in its own words.
#[derive(Clone, Debug, PartialEq, Eq)]
pub enum Cause {
    Pipeline(Error),
    Middleware(String),
}

/// A failed request: the cause, and the response to send in its place.
#[derive(Clone, Debug, PartialEq, Eq)]
pub struct PipelineError {
    pub error: Cause,
    pub response: Response,
}

pub type PipelineResult = Result<Response, PipelineError>;

/// The failure of a pipeline that runs out of middleware: a server error.
pub open spec fn no_handler() -> PipelineResult {
    Err(
        PipelineError {
            error: Cause::Pipeline(Error::NoHandler),
            response: Response { status: Some(500), body: None },
        },
    )
}

/// Builds the failure of a pipeline that runs out of middleware.
pub fn no_handler_error() -> (r: PipelineResult)
    ensures
        r == no_handler(),
{
    Err(
        PipelineError {
            error: Cause::Pipeline(Error::NoHandler),
            response: Response { status: Some(INTERNAL_SERVER_ERROR), body: None },
        },
    )
}

} // verus!
