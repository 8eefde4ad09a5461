use lambda::message::{ApiRequest, ApiResponse};
use lambda::runtime::{answer_request, run_config, Action, ContextError, Event, Run, RunError};
use lambda::uri::InvalidUri;
use lambda::LambdaCtx;

type Told = Event<u8, char, &'static str, &'static str>;
type Done = Action<u8, char, &'static str, &'static str>;

fn response() -> ApiResponse {
    ApiResponse {
        status: 200,
        headers: vec![("id".to_string(), b"7".to_vec())],
        body: b"{}".to_vec(),
    }
}

fn context(id: &str) -> LambdaCtx {
    LambdaCtx { id: id.to_string() }
}

fn assert_post(req: &ApiRequest<Vec<u8>>, path: &str, body: &[u8]) {
    assert_eq!(req.method, "POST");
    assert_eq!(req.uri.scheme, None);
    assert_eq!(req.uri.authority, None);
    assert_eq!(req.uri.path_and_query.as_deref(), Some(path));
    assert_eq!(req.body, body);
}

fn tell(run: &mut Run, event: Told) -> Done {
    run.step(event).unwrap()
}

fn stop(action: Done) -> Result<(), RunError<&'static str>> {
    match action {
        Action::Stop(end) => end,
        other => panic!("{:?}", other),
    }
}

/// A run that waits for the answer of the handler to an event with identifier `id`.
fn handling(id: &str) -> Run {
    let mut run = Run::new();
    match tell(&mut run, Event::Next(Some(Ok(response())))) {
        Action::ReadContext(headers) => assert_eq!(headers, response().headers),
        other => panic!("{:?}", other),
    }
    match tell(&mut run, Event::Context(Ok(context(id)))) {
        Action::Decode(body) => assert_eq!(body, b"{}".to_vec()),
        other => panic!("{:?}", other),
    }
    match tell(&mut run, Event::Decoded(Ok(3))) {
        Action::Call(event) => assert_eq!(event, 3),
        other => panic!("{:?}", other),
    }
    run
}

#[test]
fn what_the_handler_gives_is_sent_back() {
    let mut run = handling("7");
    match tell(&mut run, Event::Handled(Ok('x'))) {
        Action::EncodeResponse(given) => assert_eq!(given, 'x'),
        other => panic!("{:?}", other),
    }
    match tell(&mut run, Event::Encoded(Ok(vec![1, 2]))) {
        Action::Send(req) => assert_post(&req, "/runtime/invocation/7/response", &[1, 2]),
        other => panic!("{:?}", other),
    }
    assert!(matches!(tell(&mut run, Event::Delivered(Ok(()))), Action::Next));
    assert!(matches!(
        tell(&mut run, Event::Next(Some(Ok(response())))),
        Action::ReadContext(_)
    ));
}

#[test]
fn how_the_handler_fails_is_sent_back() {
    let mut run = handling("7");
    match tell(&mut run, Event::Handled(Err("broken"))) {
        Action::EncodeReport(failure) => assert_eq!(failure, "broken"),
        other => panic!("{:?}", other),
    }
    match tell(&mut run, Event::Encoded(Ok(vec![3]))) {
        Action::Send(req) => assert_post(&req, "/runtime/invocation/7/error", &[3]),
        other => panic!("{:?}", other),
    }
    assert!(matches!(tell(&mut run, Event::Delivered(Ok(()))), Action::Next));
}

#[test]
fn run_ends_with_the_events() {
    let mut run = Run::new();
    assert_eq!(stop(tell(&mut run, Event::Next(None))), Ok(()));
    let later: Told = Event::Next(None);
    assert!(run.step(later).is_none());
}

#[test]
fn first_failure_ends_the_run() {
    let mut run = Run::new();
    assert_eq!(stop(tell(&mut run, Event::Next(Some(Err("a"))))), Err(RunError::Outside("a")));

    let mut run = Run::new();
    tell(&mut run, Event::Next(Some(Ok(response()))));
    assert_eq!(stop(tell(&mut run, Event::Context(Err("b")))), Err(RunError::Outside("b")));

    let mut run = Run::new();
    tell(&mut run, Event::Next(Some(Ok(response()))));
    tell(&mut run, Event::Context(Ok(context("7"))));
    assert_eq!(stop(tell(&mut run, Event::Decoded(Err("c")))), Err(RunError::Outside("c")));

    let mut run = handling("7");
    tell(&mut run, Event::Handled(Ok('x')));
    assert_eq!(stop(tell(&mut run, Event::Encoded(Err("d")))), Err(RunError::Outside("d")));

    let mut run = handling("7");
    tell(&mut run, Event::Handled(Err("broken")));
    tell(&mut run, Event::Encoded(Ok(vec![])));
    assert_eq!(stop(tell(&mut run, Event::Delivered(Err("e")))), Err(RunError::Outside("e")));
    let later: Told = Event::Delivered(Ok(()));
    assert!(run.step(later).is_none());
}

#[test]
fn identifier_that_cannot_be_addressed_ends_the_run() {
    let cases = [("a b", "invalid uri character"), (&*"a".repeat(65506), "uri too long")];
    for (id, message) in cases {
        let mut run = handling(id);
        tell(&mut run, Event::Handled(Ok('x')));
        let end = stop(tell(&mut run, Event::Encoded(Ok(vec![]))));
        assert_eq!(end, Err(RunError::Uri(InvalidUri { message: message.to_string() })));
    }
}

#[test]
fn longest_identifier_is_answered() {
    let id = "a".repeat(65505);
    let req = answer_request(&id, false, vec![]).unwrap();
    assert_post(&req, &format!("/runtime/invocation/{}/response", id), &[]);
    assert!(answer_request(&"a".repeat(65508), true, vec![]).is_ok());
    assert!(answer_request(&"a".repeat(65509), true, vec![]).is_err());
}

#[test]
fn length_is_counted_before_characters_are_looked_at() {
    let e = answer_request(&"\u{e9}".repeat(32753), false, vec![]).unwrap_err();
    assert_eq!(e.message, "uri too long");
    let e = answer_request(&"\u{e9}".repeat(32752), false, vec![]).unwrap_err();
    assert_eq!(e.message, "invalid uri character");
}

#[test]
fn answers_have_paths_of_their_own() {
    let path = |id, failed| answer_request(id, failed, vec![]).unwrap().uri.path_and_query;
    assert_ne!(path("a", false), path("b", false));
    assert_ne!(path("a", false), path("a", true));
}

#[test]
fn event_that_is_not_awaited_changes_nothing() {
    let mut run = Run::new();
    let early: Told = Event::Delivered(Ok(()));
    assert!(run.step(early).is_none());
    let early: Told = Event::Handled(Ok('x'));
    assert!(run.step(early).is_none());
    assert!(matches!(
        tell(&mut run, Event::Next(Some(Ok(response())))),
        Action::ReadContext(_)
    ));
    let again: Told = Event::Next(None);
    assert!(run.step(again).is_none());
    assert!(matches!(tell(&mut run, Event::Context(Ok(context("7")))), Action::Decode(_)));
}

#[test]
fn each_event_is_answered_once() {
    let mut run = Run::new();
    let mut sent = Vec::new();
    for id in ["1", "2", "3"] {
        tell(&mut run, Event::Next(Some(Ok(response()))));
        tell(&mut run, Event::Context(Ok(context(id))));
        tell(&mut run, Event::Decoded(Ok(0)));
        tell(&mut run, Event::Handled(Ok('x')));
        if let Action::Send(req) = tell(&mut run, Event::Encoded(Ok(vec![]))) {
            sent.push(req.uri.path_and_query.unwrap());
        }
        tell(&mut run, Event::Delivered(Ok(())));
    }
    assert_eq!(
        sent,
        vec![
            "/runtime/invocation/1/response",
            "/runtime/invocation/2/response",
            "/runtime/invocation/3/response",
        ]
    );
}

#[test]
fn run_starts_from_the_local_endpoint() {
    let config = run_config();
    assert_eq!(config.endpoint, "http://localhost:8000");
    assert_eq!(config.function_name, "");
    assert_eq!(config.memory, 0);
}

#[test]
fn events_are_answered_in_turn() {
    let mut run = Run::new();
    let (mut calls, mut sends) = (Vec::new(), Vec::new());
    for n in 0..4u8 {
        tell(&mut run, Event::Next(Some(Ok(response()))));
        let again: Told = Event::Next(Some(Ok(response())));
        assert!(run.step(again).is_none());
        tell(&mut run, Event::Context(Ok(context(&n.to_string()))));
        match tell(&mut run, Event::Decoded(Ok(10 + n))) {
            Action::Call(value) => calls.push(value),
            other => panic!("{:?}", other),
        }
        tell(&mut run, Event::Handled(if n == 2 { Err("broken") } else { Ok('x') }));
        match tell(&mut run, Event::Encoded(Ok(vec![20 + n]))) {
            Action::Send(req) => sends.push(req),
            other => panic!("{:?}", other),
        }
        tell(&mut run, Event::Delivered(Ok(())));
    }
    assert_eq!(calls, vec![10, 11, 12, 13]);
    assert_eq!(sends.len(), 4);
    assert_post(&sends[0], "/runtime/invocation/0/response", &[20]);
    assert_post(&sends[1], "/runtime/invocation/1/response", &[21]);
    assert_post(&sends[2], "/runtime/invocation/2/error", &[22]);
    assert_post(&sends[3], "/runtime/invocation/3/response", &[23]);
}

#[test]
fn first_header_of_the_right_name_holds_the_identifier() {
    let header = |name: &str, value: &[u8]| (name.to_string(), value.to_vec());
    let found = |list: Vec<(String, Vec<u8>)>| LambdaCtx::from_headers(&list);
    assert_eq!(found(vec![]), Err(ContextError::NotFound));
    assert_eq!(found(vec![header("request-id", b"1")]), Err(ContextError::NotFound));
    let list = vec![
        header("date", b"today"),
        header("Lambda-Runtime-Aws-Request-Id", b"1"),
        header("lambda-runtime-aws-request-id", b"2"),
    ];
    assert_eq!(found(list), Ok(context("1")));
    let list = vec![header("lambda-runtime-aws-request-id", "\u{e9}".as_bytes())];
    assert_eq!(found(list), Ok(context("\u{e9}")));
    let list = vec![
        header("lambda-runtime-aws-request-id", b"\xff"),
        header("lambda-runtime-aws-request-id", b"2"),
    ];
    assert_eq!(found(list), Err(ContextError::NotText));
}
