use std::sync::{Arc, Mutex};

use iron_pipeline::prelude::{
    Fork, Handle, Method, Middleware, Pipeline, PipelineError, PipelineNext, PipelineResult, Request,
    Response,
};
use iron_pipeline::request::{no_handler_error, Cause, INTERNAL_SERVER_ERROR, NOT_FOUND, OK, UNAUTHORIZED};
use iron_pipeline::Error;

fn request(method: Method, path: &[&str]) -> Request {
    Request::new(method, path.iter().map(|s| s.to_string()).collect())
}

fn is_no_handler(result: &PipelineResult) -> bool {
    match result {
        Err(e) => e.error == Cause::Pipeline(Error::NoHandler) && e.response.status == Some(INTERNAL_SERVER_ERROR),
        Ok(_) => false,
    }
}

/// Hands the request on and returns what the rest of the chain gave.
struct PassOn;

impl Middleware for PassOn {
    fn process(&self, req: &mut Request, next: PipelineNext<'_>) -> PipelineResult {
        next.process(req)
    }
}

/// Records the request it sees and the result that comes back.
struct Logger(Arc<Mutex<Vec<String>>>);

impl Middleware for Logger {
    fn process(&self, req: &mut Request, next: PipelineNext<'_>) -> PipelineResult {
        self.0.lock().unwrap().push(format!("request {:?} /{}", req.method, req.path.join("/")));
        let result = next.process(req);
        let status = match &result {
            Ok(r) => r.status,
            Err(e) => e.response.status,
        };
        self.0.lock().unwrap().push(format!("status {:?}", status));
        result
    }
}

/// Answers every request with an authentication challenge.
struct Challenge;

impl Middleware for Challenge {
    fn process(&self, _: &mut Request, _: PipelineNext<'_>) -> PipelineResult {
        Ok(Response::with_body(UNAUTHORIZED, b"Unauthorized".to_vec()))
    }
}

#[test]
fn empty_pipeline_has_no_handler() {
    let pipeline = Pipeline::new();
    let mut req = request(Method::Get, &["a"]);
    let result = pipeline.handle(&mut req);
    assert!(is_no_handler(&result));
    assert_eq!(req.path, vec!["a"]);
}

#[test]
fn delegating_pipeline_has_no_handler() {
    let mut pipeline = Pipeline::new();
    pipeline.add(PassOn);
    pipeline.add(Fork::when(|_: &Request| false, |sub: &mut Pipeline| {
        sub.add(Handle::new(|_: &Request| Ok(Response::with_status(OK))))
    }));
    pipeline.add(PassOn);
    let result = pipeline.handle(&mut request(Method::Post, &["x"]));
    assert!(is_no_handler(&result));
}

#[test]
fn no_handler_error_value() {
    let result = no_handler_error();
    assert!(is_no_handler(&result));
    let e: PipelineError = result.unwrap_err();
    assert_eq!(e.response.body, None);
}

#[test]
fn exhausted_fork_chain_has_no_handler() {
    let mut pipeline = Pipeline::new();
    pipeline.add(Fork::when(|_: &Request| true, |_: &mut Pipeline| {}));
    pipeline.add(Handle::new(|_: &Request| Ok(Response::with_status(OK))));
    let result = pipeline.handle(&mut request(Method::Get, &[]));
    assert!(is_no_handler(&result));
}

#[test]
fn first_answer_wins() {
    let mut pipeline = Pipeline::new();
    pipeline.add(PassOn);
    pipeline.add(Challenge);
    pipeline.add(Handle::new(|_: &Request| Ok(Response::with_status(OK))));
    let response = pipeline.handle(&mut request(Method::Get, &["secret"])).unwrap();
    assert_eq!(response.status, Some(UNAUTHORIZED));
    assert_eq!(response.body.unwrap(), b"Unauthorized");
}

#[test]
fn middleware_errors_propagate_unchanged() {
    let mut pipeline = Pipeline::new();
    pipeline.add(PassOn);
    pipeline.add(Handle::new(|_: &Request| {
        Err(PipelineError {
            error: Cause::Middleware("backend down".to_string()),
            response: Response::with_status(NOT_FOUND),
        })
    }));
    let err = pipeline.handle(&mut request(Method::Get, &[])).unwrap_err();
    assert_eq!(err.error, Cause::Middleware("backend down".to_string()));
    assert_eq!(err.response.status, Some(NOT_FOUND));
}

#[test]
fn logging_wrapper_sees_request_and_result() {
    let log = Arc::new(Mutex::new(Vec::new()));
    let mut pipeline = Pipeline::new();
    pipeline.add(Logger(log.clone()));
    pipeline.add(Fork::when(|req: &Request| req.method == Method::Head, |inner: &mut Pipeline| {
        inner.add(Handle::new(|_: &Request| Ok(Response::with_status(OK))))
    }));
    pipeline.add(Handle::new(|_: &Request| Ok(Response::with_status(INTERNAL_SERVER_ERROR))));

    let response = pipeline.handle(&mut request(Method::Head, &["r"])).unwrap();
    assert_eq!(response.status, Some(OK));
    let response = pipeline.handle(&mut request(Method::Get, &["r"])).unwrap();
    assert_eq!(response.status, Some(INTERNAL_SERVER_ERROR));

    assert_eq!(
        *log.lock().unwrap(),
        vec![
            "request Head /r".to_string(),
            "status Some(200)".to_string(),
            "request Get /r".to_string(),
            "status Some(500)".to_string(),
        ]
    );
}

#[test]
fn error_descriptions() {
    assert_eq!(Error::NoHandler.description(), "Missing handler");
    assert_eq!(Error::NoHandler.to_string(), "Pipeline error (Missing handler)");
}

#[test]
fn request_starts_without_original_url() {
    let req = request(Method::Get, &["a", "b"]);
    assert!(req.original_url().is_none());
    assert!(req.headers.is_empty());
    assert_eq!(Response::new().status, None);
}
