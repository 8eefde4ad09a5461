//! The course of a run: events are fetched, handed to a handler, and answered.
//!
//! A [`Run`] decides what is to be done next. Whoever drives it does that, and tells it what came
//! of it.
use vstd::prelude::*;
use vstd::utf8::*;
use crate::client::same_but_for_case;
use crate::config::{Config, ConfigView};
use crate::message::{headers, ApiRequest, ApiResponse, RequestView, ResponseView};
use crate::requests::{
    join, lemma_around_is_injective, lemma_path_around, one_segment, post_request,
};
use crate::uri::{
    origin_form, path_and_query, path_char, path_chars, InvalidUri, Uri, UriView, MAX_URI_LEN,
};

verus! {

/// The invocation that an event belongs to.
#[derive(Debug, PartialEq)]
pub struct LambdaCtx {
    /// The identifier of the invocation.
    pub id: String,
}

/// Why headers hold no context.
#[derive(Debug, PartialEq)]
pub enum ContextError {
    /// No header holds the identifier.
    NotFound,
    /// The identifier is not text.
    NotText,
}

/// `name` is that of the header that holds the identifier of an invocation.
pub open spec fn holds_identifier(name: Seq<char>) -> bool {
    same_but_for_case(name, "lambda-runtime-aws-request-id"@)
}

/// The identifier of the invocation that an event with these headers belongs to. The first header
/// of the right name decides.
pub open spec fn identifier(headers: Seq<(Seq<char>, Seq<u8>)>) -> Result<Seq<char>, ContextError>
    decreases headers.len(),
{
    if headers.len() == 0 {
        Err(ContextError::NotFound)
    } else if !holds_identifier(headers[0].0) {
        identifier(headers.skip(1))
    } else if valid_utf8(headers[0].1) {
        Ok(decode_utf8(headers[0].1))
    } else {
        Err(ContextError::NotText)
    }
}

impl LambdaCtx {
    /// The context that the headers of an event hold.
    pub fn from_headers(list: &Vec<(String, Vec<u8>)>) -> (found: Result<LambdaCtx, ContextError>)
        ensures
            match found {
                Ok(ctx) => identifier(headers(list@)) == Ok::<_, ContextError>(ctx.id@),
                Err(e) => identifier(headers(list@)) == Err::<Seq<char>, _>(e),
            },
    {
        let ghost all = headers(list@);
        assert(all.skip(0) =~= all);
        for i in 0..list.len()
            invariant
                all == headers(list@),
                identifier(all.skip(i as int)) == identifier(all),
        {
            assert(all.skip(i as int)[0] == all[i as int]);
            assert(all.skip(i as int).skip(1) =~= all.skip(i + 1));
            if list[i].0.as_str().eq_ignore_ascii_case("lambda-runtime-aws-request-id") {
                return match utf8_text(&list[i].1) {
                    Some(id) => Ok(LambdaCtx { id }),
                    None => Err(ContextError::NotText),
                };
            }
        }
        Err(ContextError::NotFound)
    }
}

/// Calls `String::from_utf8`, which gives the text of bytes that are valid UTF-8 and fails on all
/// others.
#[verifier::external_body]
fn utf8_text(bytes: &Vec<u8>) -> (text: Option<String>)
    ensures
        match text {
            Some(text) => valid_utf8(bytes@) && text@ == decode_utf8(bytes@),
            None => !valid_utf8(bytes@),
        },
{
    String::from_utf8(bytes.clone()).ok()
}

/// The configuration that a run starts from.
pub fn run_config() -> (config: Config)
    ensures
        config@ == (ConfigView {
            endpoint: "http://localhost:8000"@,
            function_name: seq![],
            memory: 0,
            version: seq![],
            log_stream: seq![],
            log_group: seq![],
        }),
        config.endpoint@ == "http://localhost:8000"@,
{
    let mut config: Config = Default::default();
    config.endpoint = "http://localhost:8000".to_owned();
    config
}

/// What a run waits for.
#[derive(Debug, PartialEq)]
pub enum Phase {
    /// The next event.
    Polling,
    /// The context of an event with this body.
    Reading { body: Vec<u8> },
    /// The value that the body of an event stands for.
    Decoding { id: String },
    /// The answer of the handler.
    Handling { id: String },
    /// The bytes of an answer, which may be that the handler failed.
    Encoding { id: String, failed: bool },
    /// The delivery of an answer.
    Delivering,
    /// Nothing more.
    Stopped,
}

/// What a run waits for.
pub enum PhaseView {
    Polling,
    Reading { body: Seq<u8> },
    Decoding { id: Seq<char> },
    Handling { id: Seq<char> },
    Encoding { id: Seq<char>, failed: bool },
    Delivering,
    Stopped,
}

impl View for Phase {
    type V = PhaseView;

    open spec fn view(&self) -> PhaseView {
        match self {
            Phase::Polling => PhaseView::Polling,
            Phase::Reading { body } => PhaseView::Reading { body: body@ },
            Phase::Decoding { id } => PhaseView::Decoding { id: id@ },
            Phase::Handling { id } => PhaseView::Handling { id: id@ },
            Phase::Encoding { id, failed } => PhaseView::Encoding { id: id@, failed: *failed },
            Phase::Delivering => PhaseView::Delivering,
            Phase::Stopped => PhaseView::Stopped,
        }
    }
}

/// What came of an action, where events are values of type `A`, the handler gives a `B` or fails
/// with an `H`, and all else fails with an `E`.
#[derive(Debug)]
pub enum Event<A, B, H, E> {
    /// The next item of the stream of events.
    Next(Option<Result<ApiResponse, E>>),
    /// The context that headers hold.
    Context(Result<LambdaCtx, E>),
    /// The value that a body stands for.
    Decoded(Result<A, E>),
    /// What the handler gave.
    Handled(Result<B, H>),
    /// The bytes of an answer.
    Encoded(Result<Vec<u8>, E>),
    /// The delivery of an answer.
    Delivered(Result<(), E>),
}

/// What came of an action.
pub enum EventView<A, B, H, E> {
    Next(Option<Result<ResponseView, E>>),
    Context(Result<Seq<char>, E>),
    Decoded(Result<A, E>),
    Handled(Result<B, H>),
    Encoded(Result<Seq<u8>, E>),
    Delivered(Result<(), E>),
}

impl<A, B, H, E> View for Event<A, B, H, E> {
    type V = EventView<A, B, H, E>;

    open spec fn view(&self) -> EventView<A, B, H, E> {
        match *self {
            Event::Next(None) => EventView::Next(None),
            Event::Next(Some(Ok(res))) => EventView::Next(Some(Ok(res@))),
            Event::Next(Some(Err(e))) => EventView::Next(Some(Err(e))),
            Event::Context(Ok(ctx)) => EventView::Context(Ok(ctx.id@)),
            Event::Context(Err(e)) => EventView::Context(Err(e)),
            Event::Decoded(r) => EventView::Decoded(r),
            Event::Handled(r) => EventView::Handled(r),
            Event::Encoded(Ok(bytes)) => EventView::Encoded(Ok(bytes@)),
            Event::Encoded(Err(e)) => EventView::Encoded(Err(e)),
            Event::Delivered(r) => EventView::Delivered(r),
        }
    }
}

/// Why a run ends early.
#[derive(Debug, PartialEq)]
pub enum RunError<E> {
    /// An action failed.
    Outside(E),
    /// An answer cannot be addressed.
    Uri(InvalidUri),
}

/// Why a run ends early.
pub enum RunErrorView<E> {
    Outside(E),
    Uri(Seq<char>),
}

/// What is to be done next.
#[derive(Debug)]
pub enum Action<A, B, H, E> {
    /// Fetch the next event.
    Next,
    /// Read the context of an event from the headers that it came with.
    ReadContext(Vec<(String, Vec<u8>)>),
    /// Read the body of an event.
    Decode(Vec<u8>),
    /// Call the handler.
    Call(A),
    /// Write down what the handler gave.
    EncodeResponse(B),
    /// Write down a report of how the handler failed.
    EncodeReport(H),
    /// Send a request.
    Send(ApiRequest<Vec<u8>>),
    /// Return.
    Stop(Result<(), RunError<E>>),
}

/// What is to be done next.
pub enum ActionView<A, B, H, E> {
    Next,
    ReadContext(Seq<(Seq<char>, Seq<u8>)>),
    Decode(Seq<u8>),
    Call(A),
    EncodeResponse(B),
    EncodeReport(H),
    Send(RequestView<Seq<u8>>),
    Stop(Result<(), RunErrorView<E>>),
}

impl<A, B, H, E> View for Action<A, B, H, E> {
    type V = ActionView<A, B, H, E>;

    open spec fn view(&self) -> ActionView<A, B, H, E> {
        match *self {
            Action::Next => ActionView::Next,
            Action::ReadContext(list) => ActionView::ReadContext(headers(list@)),
            Action::Decode(body) => ActionView::Decode(body@),
            Action::Call(event) => ActionView::Call(event),
            Action::EncodeResponse(answer) => ActionView::EncodeResponse(answer),
            Action::EncodeReport(failure) => ActionView::EncodeReport(failure),
            Action::Send(req) => ActionView::Send(req@),
            Action::Stop(Ok(())) => ActionView::Stop(Ok(())),
            Action::Stop(Err(RunError::Outside(e))) => ActionView::Stop(
                Err(RunErrorView::Outside(e)),
            ),
            Action::Stop(Err(RunError::Uri(e))) => ActionView::Stop(Err(RunErrorView::Uri(e@))),
        }
    }
}

/// The path that the answer to an invocation is sent to, before it is read.
pub open spec fn answer_path(id: Seq<char>, failed: bool) -> Seq<char> {
    "/runtime/invocation/"@ + id + (if failed {
        "/error"@
    } else {
        "/response"@
    })
}

/// The request that answers an invocation, or the message of the error.
pub open spec fn answer(id: Seq<char>, failed: bool, body: Seq<u8>) -> Result<
    RequestView<Seq<u8>>,
    Seq<char>,
> {
    match origin_form(answer_path(id, failed)) {
        Ok(path) => Ok(post_request(path, body)),
        Err(message) => Err(message),
    }
}

/// The end of a run whose last action failed with `e`.
pub open spec fn failed_with<A, B, H, E>(e: E) -> Option<(PhaseView, ActionView<A, B, H, E>)> {
    Some((PhaseView::Stopped, ActionView::Stop(Err(RunErrorView::Outside(e)))))
}

/// What a run that waits in `phase` does when it is told `event`: what it then waits for, and
/// what is to be done next. Nothing, where it does not wait for such an event.
pub open spec fn step<A, B, H, E>(phase: PhaseView, event: EventView<A, B, H, E>) -> Option<
    (PhaseView, ActionView<A, B, H, E>),
> {
    match (phase, event) {
        (PhaseView::Polling, EventView::Next(None)) => Some(
            (PhaseView::Stopped, ActionView::Stop(Ok(()))),
        ),
        (PhaseView::Polling, EventView::Next(Some(Err(e)))) => failed_with(e),
        (PhaseView::Polling, EventView::Next(Some(Ok(res)))) => Some(
            (PhaseView::Reading { body: res.body }, ActionView::ReadContext(res.headers)),
        ),
        (PhaseView::Reading { body }, EventView::Context(Err(e))) => failed_with(e),
        (PhaseView::Reading { body }, EventView::Context(Ok(id))) => Some(
            (PhaseView::Decoding { id }, ActionView::Decode(body)),
        ),
        (PhaseView::Decoding { id }, EventView::Decoded(Err(e))) => failed_with(e),
        (PhaseView::Decoding { id }, EventView::Decoded(Ok(value))) => Some(
            (PhaseView::Handling { id }, ActionView::Call(value)),
        ),
        (PhaseView::Handling { id }, EventView::Handled(Ok(given))) => Some(
            (PhaseView::Encoding { id, failed: false }, ActionView::EncodeResponse(given)),
        ),
        (PhaseView::Handling { id }, EventView::Handled(Err(failure))) => Some(
            (PhaseView::Encoding { id, failed: true }, ActionView::EncodeReport(failure)),
        ),
        (PhaseView::Encoding { id, failed }, EventView::Encoded(Err(e))) => failed_with(e),
        (PhaseView::Encoding { id, failed }, EventView::Encoded(Ok(body))) => match answer(
            id,
            failed,
            body,
        ) {
            Ok(req) => Some((PhaseView::Delivering, ActionView::Send(req))),
            Err(message) => Some(
                (PhaseView::Stopped, ActionView::Stop(Err(RunErrorView::Uri(message)))),
            ),
        },
        (PhaseView::Delivering, EventView::Delivered(Err(e))) => failed_with(e),
        (PhaseView::Delivering, EventView::Delivered(Ok(()))) => Some(
            (PhaseView::Polling, ActionView::Next),
        ),
        _ => None,
    }
}

/// A run of a handler.
#[derive(Debug)]
pub struct Run {
    phase: Phase,
}

impl View for Run {
    type V = PhaseView;

    closed spec fn view(&self) -> PhaseView {
        self.phase@
    }
}

impl Run {
    /// A run that starts by fetching the next event.
    pub fn new() -> (run: Run)
        ensures
            run@ == PhaseView::Polling,
    {
        Run { phase: Phase::Polling }
    }

    /// Tells the run what came of the last action, and gives the next one. Where the run does not
    /// wait for this, nothing changes.
    pub fn step<A, B, H, E>(&mut self, event: Event<A, B, H, E>) -> (action: Option<
        Action<A, B, H, E>,
    >)
        ensures
            match step(old(self)@, event@) {
                Some((phase, next)) => final(self)@ == phase && (action matches Some(a) && a@
                    == next),
                None => final(self)@ == old(self)@ && action is None,
            },
            action matches Some(action) ==> match event {
                Event::Next(None) => action == Action::<A, B, H, E>::Stop(Ok(())),
                Event::Next(Some(Ok(res))) => action == Action::<A, B, H, E>::ReadContext(
                    res.headers,
                ) && final(self)@ == (PhaseView::Reading { body: res.body@ }),
                Event::Context(Ok(ctx)) => (action matches Action::Decode(body) && old(self)@ == (
                PhaseView::Reading { body: body@ })) && final(self)@ == (PhaseView::Decoding {
                    id: ctx.id@,
                }),
                Event::Decoded(Ok(value)) => action == Action::<A, B, H, E>::Call(value),
                Event::Handled(Ok(given)) => action == Action::<A, B, H, E>::EncodeResponse(given),
                Event::Handled(Err(failure)) => action == Action::<A, B, H, E>::EncodeReport(
                    failure,
                ),
                Event::Encoded(Ok(body)) => (action matches Action::Send(req) ==> req.body@
                    == body@) && (action is Send || action is Stop),
                Event::Delivered(Ok(())) => action == Action::<A, B, H, E>::Next,
                Event::Next(Some(Err(e))) => action == Action::<A, B, H, E>::Stop(
                    Err(RunError::Outside(e)),
                ),
                Event::Context(Err(e)) => action == Action::<A, B, H, E>::Stop(
                    Err(RunError::Outside(e)),
                ),
                Event::Decoded(Err(e)) => action == Action::<A, B, H, E>::Stop(
                    Err(RunError::Outside(e)),
                ),
                Event::Encoded(Err(e)) => action == Action::<A, B, H, E>::Stop(
                    Err(RunError::Outside(e)),
                ),
                Event::Delivered(Err(e)) => action == Action::<A, B, H, E>::Stop(
                    Err(RunError::Outside(e)),
                ),
            },
    {
        let mut phase = Phase::Stopped;
        core::mem::swap(&mut phase, &mut self.phase);
        let (phase, action) = match (phase, event) {
            (Phase::Polling, Event::Next(None)) => (Phase::Stopped, Action::Stop(Ok(()))),
            (Phase::Polling, Event::Next(Some(Err(e)))) => Run::fail(e),
            (Phase::Polling, Event::Next(Some(Ok(res)))) => (
                Phase::Reading { body: res.body },
                Action::ReadContext(res.headers),
            ),
            (Phase::Reading { .. }, Event::Context(Err(e))) => Run::fail(e),
            (Phase::Reading { body }, Event::Context(Ok(ctx))) => (
                Phase::Decoding { id: ctx.id },
                Action::Decode(body),
            ),
            (Phase::Decoding { .. }, Event::Decoded(Err(e))) => Run::fail(e),
            (Phase::Decoding { id }, Event::Decoded(Ok(value))) => (
                Phase::Handling { id },
                Action::Call(value),
            ),
            (Phase::Handling { id }, Event::Handled(Ok(given))) => (
                Phase::Encoding { id, failed: false },
                Action::EncodeResponse(given),
            ),
            (Phase::Handling { id }, Event::Handled(Err(failure))) => (
                Phase::Encoding { id, failed: true },
                Action::EncodeReport(failure),
            ),
            (Phase::Encoding { .. }, Event::Encoded(Err(e))) => Run::fail(e),
            (Phase::Encoding { id, failed }, Event::Encoded(Ok(body))) => match answer_request(
                id.as_str(),
                failed,
                body,
            ) {
                Ok(req) => (Phase::Delivering, Action::Send(req)),
                Err(e) => (Phase::Stopped, Action::Stop(Err(RunError::Uri(e)))),
            },
            (Phase::Delivering, Event::Delivered(Err(e))) => Run::fail(e),
            (Phase::Delivering, Event::Delivered(Ok(()))) => (Phase::Polling, Action::Next),
            (phase, _) => {
                self.phase = phase;
                return None;
            },
        };
        self.phase = phase;
        Some(action)
    }

    /// The end of a run whose last action failed.
    fn fail<A, B, H, E>(e: E) -> (end: (Phase, Action<A, B, H, E>))
        ensures
            failed_with::<A, B, H, E>(e) == Some((end.0@, end.1@)),
            end.1 == Action::<A, B, H, E>::Stop(Err(RunError::Outside(e))),
    {
        (Phase::Stopped, Action::Stop(Err(RunError::Outside(e))))
    }
}

/// The request that answers an invocation: it hands in what the handler gave, or a report of how
/// it failed.
pub fn answer_request(id: &str, failed: bool, body: Vec<u8>) -> (made: Result<
    ApiRequest<Vec<u8>>,
    InvalidUri,
>)
    ensures
        match made {
            Ok(req) => answer(id@, failed, body@) == Ok::<_, Seq<char>>(req@),
            Err(e) => answer(id@, failed, body@) == Err::<RequestView<Seq<u8>>, _>(e@),
        },
        made matches Ok(req) ==> req@.method == "POST"@ && req@.uri.scheme is None
            && req@.uri.authority is None && req@.uri.path_and_query == path_and_query(
            "/runtime/invocation/"@ + id@ + (if failed {
                "/error"@
            } else {
                "/response"@
            }),
        ) && req.body@ == body@,
{
    let end = if failed {
        "/error"
    } else {
        "/response"
    };
    let path = join("/runtime/invocation/", id, end);
    proof {
        reveal_strlit("/runtime/invocation/");
        assert(path@[0] == '/');
    }
    let uri = match Uri::parse(path.as_str()) {
        Ok(uri) => uri,
        Err(e) => return Err(e),
    };
    match ApiRequest::build("POST", uri, body) {
        Ok(req) => Ok(req),
        Err(_) => vstd::pervasive::unreached(),
    }
}

/// What a run waits for, once it was told `events` from its start.
pub open spec fn phase_after<A, B, H, E>(events: Seq<EventView<A, B, H, E>>) -> PhaseView
    decreases events.len(),
{
    if events.len() == 0 {
        PhaseView::Polling
    } else {
        let phase = phase_after(events.drop_last());
        match step(phase, events.last()) {
            Some((next, _)) => next,
            None => phase,
        }
    }
}

/// What a run had done, once it was told `events` from its start.
pub open spec fn actions_after<A, B, H, E>(events: Seq<EventView<A, B, H, E>>) -> Seq<
    ActionView<A, B, H, E>,
>
    decreases events.len(),
{
    if events.len() == 0 {
        seq![ActionView::Next]
    } else {
        let actions = actions_after(events.drop_last());
        match step(phase_after(events.drop_last()), events.last()) {
            Some((_, action)) => actions.push(action),
            None => actions,
        }
    }
}

/// How many answers are sent.
pub open spec fn answers<A, B, H, E>(actions: Seq<ActionView<A, B, H, E>>) -> int
    decreases actions.len(),
{
    if actions.len() == 0 {
        0
    } else if actions.last() is Send {
        answers(actions.drop_last()) + 1
    } else {
        answers(actions.drop_last())
    }
}

/// How many events are taken up.
pub open spec fn invocations<A, B, H, E>(actions: Seq<ActionView<A, B, H, E>>) -> int
    decreases actions.len(),
{
    if actions.len() == 0 {
        0
    } else if actions.last() is ReadContext {
        invocations(actions.drop_last()) + 1
    } else {
        invocations(actions.drop_last())
    }
}

proof fn lemma_counts<A, B, H, E>(
    actions: Seq<ActionView<A, B, H, E>>,
    action: ActionView<A, B, H, E>,
)
    ensures
        answers(actions.push(action)) == answers(actions) + if action is Send {
            1int
        } else {
            0int
        },
        invocations(actions.push(action)) == invocations(actions) + if action is ReadContext {
            1int
        } else {
            0int
        },
{
    assert(actions.push(action).drop_last() =~= actions);
}

/// Whatever happens, each event that is taken up is answered at most once, and no answer is sent
/// for an event that was not taken up; when the next event is fetched, every one before it was
/// answered.
pub proof fn law_one_answer_per_event<A, B, H, E>(events: Seq<EventView<A, B, H, E>>)
    ensures
        ({
            let taken = invocations(actions_after(events));
            let sent = answers(actions_after(events));
            match phase_after(events) {
                PhaseView::Polling | PhaseView::Delivering => sent == taken,
                PhaseView::Stopped => sent == taken || sent + 1 == taken,
                _ => sent + 1 == taken,
            }
        }),
    decreases events.len(),
{
    if events.len() == 0 {
        let start: Seq<ActionView<A, B, H, E>> = seq![];
        lemma_counts(start, ActionView::Next);
        assert(start.push(ActionView::Next) =~= seq![ActionView::<A, B, H, E>::Next]);
    } else {
        law_one_answer_per_event(events.drop_last());
        match step(phase_after(events.drop_last()), events.last()) {
            Some((_, action)) => {
                lemma_counts(actions_after(events.drop_last()), action);
            },
            None => {},
        }
    }
}

/// What a run was told of one event that it took up, as far as it was told.
pub struct Turn<A, B, H> {
    /// The event.
    pub res: ResponseView,
    /// The identifier that its headers hold.
    pub id: Option<Seq<char>>,
    /// The value that its body stands for.
    pub value: Option<A>,
    /// What the handler gave, or how it failed.
    pub handled: Option<Result<B, H>>,
    /// The bytes of the answer.
    pub body: Option<Seq<u8>>,
}

/// The events that a run took up, in order, once it was told `events` from its start.
pub open spec fn turns<A, B, H, E>(events: Seq<EventView<A, B, H, E>>) -> Seq<Turn<A, B, H>>
    decreases events.len(),
{
    if events.len() == 0 {
        seq![]
    } else {
        let turns = turns(events.drop_last());
        match (step(phase_after(events.drop_last()), events.last()), events.last()) {
            (Some(_), EventView::Next(Some(Ok(res)))) => turns.push(
                Turn { res, id: None, value: None, handled: None, body: None },
            ),
            (Some(_), EventView::Context(Ok(id))) => turns.drop_last().push(
                Turn { id: Some(id), ..turns.last() },
            ),
            (Some(_), EventView::Decoded(Ok(value))) => turns.drop_last().push(
                Turn { value: Some(value), ..turns.last() },
            ),
            (Some(_), EventView::Handled(handled)) => turns.drop_last().push(
                Turn { handled: Some(handled), ..turns.last() },
            ),
            (Some(_), EventView::Encoded(Ok(body))) => turns.drop_last().push(
                Turn { body: Some(body), ..turns.last() },
            ),
            _ => turns,
        }
    }
}

/// The headers that a context is read from, in order.
pub open spec fn reads<A, B, H, E>(actions: Seq<ActionView<A, B, H, E>>) -> Seq<
    Seq<(Seq<char>, Seq<u8>)>,
>
    decreases actions.len(),
{
    if actions.len() == 0 {
        seq![]
    } else {
        let before = reads(actions.drop_last());
        match actions.last() {
            ActionView::ReadContext(headers) => before.push(headers),
            _ => before,
        }
    }
}

/// The bodies that are read, in order.
pub open spec fn decodes<A, B, H, E>(actions: Seq<ActionView<A, B, H, E>>) -> Seq<Seq<u8>>
    decreases actions.len(),
{
    if actions.len() == 0 {
        seq![]
    } else {
        let before = decodes(actions.drop_last());
        match actions.last() {
            ActionView::Decode(body) => before.push(body),
            _ => before,
        }
    }
}

/// What the handler is called with, in order.
pub open spec fn calls<A, B, H, E>(actions: Seq<ActionView<A, B, H, E>>) -> Seq<A>
    decreases actions.len(),
{
    if actions.len() == 0 {
        seq![]
    } else {
        let before = calls(actions.drop_last());
        match actions.last() {
            ActionView::Call(value) => before.push(value),
            _ => before,
        }
    }
}

/// What is written down of what the handler gave, in order.
pub open spec fn encodes<A, B, H, E>(actions: Seq<ActionView<A, B, H, E>>) -> Seq<Result<B, H>>
    decreases actions.len(),
{
    if actions.len() == 0 {
        seq![]
    } else {
        let before = encodes(actions.drop_last());
        match actions.last() {
            ActionView::EncodeResponse(given) => before.push(Ok(given)),
            ActionView::EncodeReport(failure) => before.push(Err(failure)),
            _ => before,
        }
    }
}

/// The requests that are sent, in order.
pub open spec fn sends<A, B, H, E>(actions: Seq<ActionView<A, B, H, E>>) -> Seq<
    RequestView<Seq<u8>>,
>
    decreases actions.len(),
{
    if actions.len() == 0 {
        seq![]
    } else {
        let before = sends(actions.drop_last());
        match actions.last() {
            ActionView::Send(req) => before.push(req),
            _ => before,
        }
    }
}

/// `req` answers the event that `turn` is about.
pub open spec fn answers_turn<A, B, H>(turn: Turn<A, B, H>, req: RequestView<Seq<u8>>) -> bool {
    match (turn.id, turn.handled, turn.body) {
        (Some(id), Some(handled), Some(body)) => {
            &&& req.method == "POST"@
            &&& req.uri.scheme is None && req.uri.authority is None
            &&& req.uri.path_and_query is Some && req.uri.path_and_query == path_and_query(
                "/runtime/invocation/"@ + id + (if handled is Err {
                    "/error"@
                } else {
                    "/response"@
                }),
            )
            &&& req.body == body
        },
        _ => false,
    }
}

/// What is done is done for the events that were taken up, one for one and in order.
pub open spec fn in_turn<A, B, H, E>(
    turns: Seq<Turn<A, B, H>>,
    actions: Seq<ActionView<A, B, H, E>>,
) -> bool {
    &&& sends(actions).len() <= encodes(actions).len() <= calls(actions).len() <= decodes(
        actions,
    ).len() <= turns.len() <= sends(actions).len() + 1
    &&& reads(actions).len() == turns.len()
    &&& forall|i: int| 0 <= i < reads(actions).len() ==> #[trigger] reads(actions)[i]
        == turns[i].res.headers
    &&& forall|i: int| 0 <= i < decodes(actions).len() ==> #[trigger] decodes(actions)[i]
        == turns[i].res.body
    &&& forall|i: int| 0 <= i < calls(actions).len() ==> Some(#[trigger] calls(actions)[i])
        == turns[i].value
    &&& forall|i: int| 0 <= i < encodes(actions).len() ==> Some(#[trigger] encodes(actions)[i])
        == turns[i].handled
    &&& forall|i: int| 0 <= i < sends(actions).len() ==> answers_turn(
        turns[i],
        #[trigger] sends(actions)[i],
    )
}

/// How far the last event has come, by what a run waits for.
spec fn progress<A, B, H, E>(
    phase: PhaseView,
    turns: Seq<Turn<A, B, H>>,
    actions: Seq<ActionView<A, B, H, E>>,
) -> bool {
    match phase {
        PhaseView::Polling | PhaseView::Delivering => sends(actions).len() == turns.len(),
        PhaseView::Reading { body } => {
            &&& decodes(actions).len() + 1 == turns.len()
            &&& body == turns.last().res.body
        },
        PhaseView::Decoding { id } => {
            &&& calls(actions).len() + 1 == decodes(actions).len() == turns.len()
            &&& turns.last().id == Some(id)
        },
        PhaseView::Handling { id } => {
            &&& encodes(actions).len() + 1 == calls(actions).len() == turns.len()
            &&& turns.last().id == Some(id)
        },
        PhaseView::Encoding { id, failed } => {
            &&& sends(actions).len() + 1 == encodes(actions).len() == turns.len()
            &&& turns.last().id == Some(id)
            &&& turns.last().handled matches Some(handled) && failed == (handled is Err)
        },
        PhaseView::Stopped => true,
    }
}

proof fn lemma_pushed<A, B, H, E>(
    actions: Seq<ActionView<A, B, H, E>>,
    action: ActionView<A, B, H, E>,
)
    ensures
        reads(actions.push(action)) == match action {
            ActionView::ReadContext(headers) => reads(actions).push(headers),
            _ => reads(actions),
        },
        decodes(actions.push(action)) == match action {
            ActionView::Decode(body) => decodes(actions).push(body),
            _ => decodes(actions),
        },
        calls(actions.push(action)) == match action {
            ActionView::Call(value) => calls(actions).push(value),
            _ => calls(actions),
        },
        encodes(actions.push(action)) == match action {
            ActionView::EncodeResponse(given) => encodes(actions).push(Ok(given)),
            ActionView::EncodeReport(failure) => encodes(actions).push(Err(failure)),
            _ => encodes(actions),
        },
        sends(actions.push(action)) == match action {
            ActionView::Send(req) => sends(actions).push(req),
            _ => sends(actions),
        },
{
    assert(actions.push(action).drop_last() =~= actions);
}

/// Over a whole run, whatever happens, the bodies that are read, the calls of the handler, what
/// is written down and the answers that are sent match the events that were taken up, one for one
/// and in order.
pub proof fn law_events_are_answered_in_turn<A, B, H, E>(events: Seq<EventView<A, B, H, E>>)
    ensures
        in_turn(turns(events), actions_after(events)),
        phase_after(events) is Polling || phase_after(events) is Delivering ==> sends(
            actions_after(events),
        ).len() == turns(events).len(),
{
    lemma_in_turn(events);
}

proof fn lemma_in_turn<A, B, H, E>(events: Seq<EventView<A, B, H, E>>)
    ensures
        in_turn(turns(events), actions_after(events)),
        progress(phase_after(events), turns(events), actions_after(events)),
    decreases events.len(),
{
    if events.len() == 0 {
        let start: Seq<ActionView<A, B, H, E>> = seq![];
        lemma_pushed(start, ActionView::Next);
        assert(start.push(ActionView::Next) =~= seq![ActionView::<A, B, H, E>::Next]);
    } else {
        lemma_in_turn(events.drop_last());
        match step(phase_after(events.drop_last()), events.last()) {
            Some((_, action)) => {
                lemma_pushed(actions_after(events.drop_last()), action);
            },
            None => {},
        }
    }
}

/// The identifier that was read last, once a run was told `events` from its start.
pub open spec fn last_identifier<A, B, H, E>(events: Seq<EventView<A, B, H, E>>) -> Option<
    Seq<char>,
>
    decreases events.len(),
{
    if events.len() == 0 {
        None
    } else {
        match (step(phase_after(events.drop_last()), events.last()), events.last()) {
            (Some(_), EventView::Context(Ok(id))) => Some(id),
            _ => last_identifier(events.drop_last()),
        }
    }
}

/// Whatever happens, an answer is sent to where the identifier that was read last says, and
/// holds the bytes that were written down last.
pub proof fn law_answers_go_where_they_belong<A, B, H, E>(
    events: Seq<EventView<A, B, H, E>>,
    event: EventView<A, B, H, E>,
)
    ensures
        step(phase_after(events), event) matches Some((_, ActionView::Send(req))) ==> {
            &&& phase_after(events) is Encoding
            &&& last_identifier(events) is Some
            &&& event is Encoded && event->Encoded_0 is Ok
            &&& answer(
                last_identifier(events)->0,
                phase_after(events)->failed,
                event->Encoded_0->Ok_0,
            ) == Ok::<_, Seq<char>>(req)
        },
{
    lemma_phase_holds_last_identifier(events);
}

proof fn lemma_phase_holds_last_identifier<A, B, H, E>(events: Seq<EventView<A, B, H, E>>)
    ensures
        match phase_after(events) {
            PhaseView::Decoding { id } => last_identifier(events) == Some(id),
            PhaseView::Handling { id } => last_identifier(events) == Some(id),
            PhaseView::Encoding { id, .. } => last_identifier(events) == Some(id),
            _ => true,
        },
    decreases events.len(),
{
    if events.len() > 0 {
        lemma_phase_holds_last_identifier(events.drop_last());
    }
}

/// A run stops with the last thing it does, and does nothing afterwards.
pub proof fn law_a_stop_is_final<A, B, H, E>(
    phase: PhaseView,
    event: EventView<A, B, H, E>,
    later: EventView<A, B, H, E>,
)
    ensures
        step(phase, event) matches Some((next, action)) ==> {
            &&& action is Stop <==> next is Stopped
            &&& next is Stopped ==> step(next, later) is None
        },
{
}

/// How an action failed, where the handler is not what failed.
pub open spec fn failure<A, B, H, E>(event: EventView<A, B, H, E>) -> Option<E> {
    match event {
        EventView::Next(Some(Err(e))) => Some(e),
        EventView::Context(Err(e)) => Some(e),
        EventView::Decoded(Err(e)) => Some(e),
        EventView::Encoded(Err(e)) => Some(e),
        EventView::Delivered(Err(e)) => Some(e),
        _ => None,
    }
}

/// A run returns the first failure of anything but the handler, and returns without one only when
/// there are no more events. Besides, it stops only because an answer cannot be addressed.
pub proof fn law_what_ends_a_run<A, B, H, E>(phase: PhaseView, event: EventView<A, B, H, E>)
    ensures
        step(phase, event) matches Some((_, action)) ==> {
            &&& failure(event) matches Some(e) ==> action == ActionView::<A, B, H, E>::Stop(
                Err(RunErrorView::Outside(e)),
            )
            &&& action matches ActionView::Stop(Ok(())) ==> event == EventView::<
                A,
                B,
                H,
                E,
            >::Next(None)
            &&& action is Stop ==> failure(event) is Some || event == EventView::<
                A,
                B,
                H,
                E,
            >::Next(None) || (phase matches PhaseView::Encoding { id, failed } && origin_form(
                answer_path(id, failed),
            ) is Err)
        },
{
}

/// A run goes on after the handler failed.
pub proof fn law_a_failed_handler_ends_no_run<A, B, H, E>(phase: PhaseView, failure: H)
    ensures
        step(phase, EventView::<A, B, H, E>::Handled(Err(failure))) matches Some((next, action))
            ==> next !is Stopped && action == ActionView::<A, B, H, E>::EncodeReport(failure),
{
}

/// An invocation whose identifier a path may hold is answered at a path that holds this very
/// identifier, unless the path would be too long: at `/response` where the handler did not fail,
/// and at `/error` where it did.
pub proof fn law_answer_is_addressed(id: Seq<char>, failed: bool, body: Seq<u8>)
    requires
        one_segment(id),
        ("/runtime/invocation/"@ + id + (if failed {
            "/error"@
        } else {
            "/response"@
        })).len() <= MAX_URI_LEN,
    ensures
        path_chars(id, 0, id.len() as int) ==> answer(id, failed, body) == Ok::<_, Seq<char>>(
            (RequestView {
                method: "POST"@,
                uri: (UriView {
                    scheme: None,
                    authority: None,
                    path_and_query: Some(
                        "/runtime/invocation/"@ + id + (if failed {
                            "/error"@
                        } else {
                            "/response"@
                        }),
                    ),
                }),
                body,
            }),
        ),
        !path_chars(id, 0, id.len() as int) ==> answer(id, failed, body) is Err,
{
    reveal_strlit("/runtime/invocation/");
    reveal_strlit("/response");
    reveal_strlit("/error");
    let end = if failed {
        "/error"@
    } else {
        "/response"@
    };
    lemma_path_around("/runtime/invocation/"@, id, end);
    if path_chars(id, 0, id.len() as int) {
        let s = answer_path(id, failed);
        let n = "/runtime/invocation/"@.len() as int;
        assert forall|i: int| 0 <= i < s.len() implies '\0' <= #[trigger] s[i] <= '\u{7f}' by {
            if n <= i < n + id.len() {
                assert(s[i] == id[i - n]);
                assert(path_char(id[i - n]));
            }
        }
        is_ascii_chars_encode_utf8(s);
    }
}

/// Different invocations are answered at different paths, and no response goes where an error
/// goes.
pub proof fn law_answers_are_distinct(id: Seq<char>, other: Seq<char>, failed: bool)
    ensures
        answer_path(id, failed) == answer_path(other, failed) ==> id == other,
        answer_path(id, true) != answer_path(other, false),
{
    reveal_strlit("/runtime/invocation/");
    reveal_strlit("/response");
    reveal_strlit("/error");
    lemma_around_is_injective("/runtime/invocation/"@, id, other, "/response"@);
    lemma_around_is_injective("/runtime/invocation/"@, id, other, "/error"@);
    assert(answer_path(id, true).last() == 'r');
    assert(answer_path(other, false).last() == 'e');
}

/// Whenever the next event is fetched, the event is handed to the handler, and what the handler
/// gives, or how it fails, is sent back under the identifier that the event came with, before
/// another event is fetched.
pub proof fn law_an_event_is_answered<A, B, H, E>(
    before: Seq<EventView<A, B, H, E>>,
    res: ResponseView,
    id: Seq<char>,
    value: A,
    handled: Result<B, H>,
    body: Seq<u8>,
)
    requires
        phase_after(before) is Polling,
        one_segment(id),
        path_chars(id, 0, id.len() as int),
        ("/runtime/invocation/"@ + id + (if handled is Err {
            "/error"@
        } else {
            "/response"@
        })).len() <= MAX_URI_LEN,
    ensures
        ({
            let events = before + seq![
                EventView::Next(Some(Ok(res))),
                EventView::Context(Ok(id)),
                EventView::Decoded(Ok(value)),
                EventView::Handled(handled),
                EventView::Encoded(Ok(body)),
                EventView::Delivered(Ok(())),
            ];
            &&& phase_after(events) is Polling
            &&& actions_after(events) == actions_after(before) + seq![
                ActionView::ReadContext(res.headers),
                ActionView::Decode(res.body),
                ActionView::Call(value),
                match handled {
                    Ok(given) => ActionView::EncodeResponse(given),
                    Err(failure) => ActionView::EncodeReport(failure),
                },
                ActionView::Send(
                    (RequestView {
                        method: "POST"@,
                        uri: (UriView {
                            scheme: None,
                            authority: None,
                            path_and_query: Some(
                                "/runtime/invocation/"@ + id + (if handled is Err {
                                    "/error"@
                                } else {
                                    "/response"@
                                }),
                            ),
                        }),
                        body,
                    }),
                ),
                ActionView::Next,
            ]
        }),
{
    law_answer_is_addressed(id, handled is Err, body);
    let read = before.push(EventView::Next(Some(Ok(res))));
    let known = read.push(EventView::Context(Ok(id)));
    let decoded = known.push(EventView::Decoded(Ok(value)));
    let called = decoded.push(EventView::Handled(handled));
    let encoded = called.push(EventView::Encoded(Ok(body)));
    lemma_told(before, EventView::Next(Some(Ok(res))));
    lemma_told(read, EventView::Context(Ok(id)));
    lemma_told(known, EventView::Decoded(Ok(value)));
    lemma_told(decoded, EventView::Handled(handled));
    lemma_told(called, EventView::Encoded(Ok(body)));
    lemma_told(encoded, EventView::Delivered(Ok(())));
    assert(encoded.push(EventView::Delivered(Ok(()))) =~= before + seq![
        EventView::Next(Some(Ok(res))),
        EventView::Context(Ok(id)),
        EventView::Decoded(Ok(value)),
        EventView::Handled(handled),
        EventView::Encoded(Ok(body)),
        EventView::Delivered(Ok(())),
    ]);
}

/// The request that answers an invocation is a POST with the bytes that were given, to
/// `/response` where the handler did not fail and to `/error` where it did, of the invocation with
/// this very identifier. It is refused where the path is too long, or else cannot be read.
pub proof fn law_answer_goes_to_its_invocation(
    id: &str,
    failed: bool,
    body: Vec<u8>,
    made: Result<ApiRequest<Vec<u8>>, InvalidUri>,
)
    requires
        call_ensures(answer_request, (id, failed, body), made),
    ensures
        ({
            let path = "/runtime/invocation/"@ + id@ + (if failed {
                "/error"@
            } else {
                "/response"@
            });
            &&& encode_utf8(path).len() > 65534 ==> (made matches Err(e) && e.message@
                == "uri too long"@)
            &&& encode_utf8(path).len() <= 65534 ==> match path_and_query(path) {
                None => made matches Err(e) && e.message@ == "invalid uri character"@,
                Some(read) => made matches Ok(req) && req.method@ == "POST"@ && req.uri.scheme
                    is None && req.uri.authority is None && (req.uri.path_and_query matches Some(
                    p,
                ) && p@ == read) && req.body@ == body@,
            }
            &&& one_segment(id@) && path_chars(id@, 0, id@.len() as int) && path.len() <= 65534
                ==> (made matches Ok(req) && (req.uri.path_and_query matches Some(p) && p@
                == path))
        }),
{
    if one_segment(id@) && path_chars(id@, 0, id@.len() as int) && ("/runtime/invocation/"@ + id@
        + (if failed {
        "/error"@
    } else {
        "/response"@
    })).len() <= 65534 {
        law_answer_is_addressed(id@, failed, body@);
    }
}

/// A run takes up the events that it waits for, and no others.
pub proof fn law_what_a_run_waits_for<A, B, H, E>(phase: PhaseView, event: EventView<A, B, H, E>)
    ensures
        step(phase, event) is Some <==> {
            ||| phase is Polling && event is Next
            ||| phase is Reading && event is Context
            ||| phase is Decoding && event is Decoded
            ||| phase is Handling && event is Handled
            ||| phase is Encoding && event is Encoded
            ||| phase is Delivering && event is Delivered
        },
{
}

/// Whatever a run has come to, what it holds is handed on: the body of an event to be read, its
/// identifier to the answer, what the handler gave to be written down.
pub proof fn law_a_run_hands_on<A, B, H, E>(
    res: ResponseView,
    body: Seq<u8>,
    id: Seq<char>,
    value: A,
    given: B,
    failure: H,
)
    ensures
        step(PhaseView::Polling, EventView::<A, B, H, E>::Next(Some(Ok(res)))) == Some(
            (PhaseView::Reading { body: res.body }, ActionView::<A, B, H, E>::ReadContext(res.headers)),
        ),
        step(PhaseView::Reading { body }, EventView::<A, B, H, E>::Context(Ok(id))) == Some(
            (PhaseView::Decoding { id }, ActionView::<A, B, H, E>::Decode(body)),
        ),
        step(PhaseView::Decoding { id }, EventView::<A, B, H, E>::Decoded(Ok(value))) == Some(
            (PhaseView::Handling { id }, ActionView::<A, B, H, E>::Call(value)),
        ),
        step(PhaseView::Handling { id }, EventView::<A, B, H, E>::Handled(Ok(given))) == Some(
            (PhaseView::Encoding { id, failed: false }, ActionView::<A, B, H, E>::EncodeResponse(given)),
        ),
        step(PhaseView::Handling { id }, EventView::<A, B, H, E>::Handled(Err(failure))) == Some(
            (PhaseView::Encoding { id, failed: true }, ActionView::<A, B, H, E>::EncodeReport(failure)),
        ),
        step(PhaseView::Delivering, EventView::<A, B, H, E>::Delivered(Ok(()))) == Some(
            (PhaseView::Polling, ActionView::<A, B, H, E>::Next),
        ),
        step(PhaseView::Polling, EventView::<A, B, H, E>::Next(None)) == Some(
            (PhaseView::Stopped, ActionView::<A, B, H, E>::Stop(Ok(()))),
        ),
{
}

/// Whatever a run has come to, a failure of anything but the handler that it waits for stops it,
/// and is what it returns.
pub proof fn law_a_failure_stops_a_run<A, B, H, E>(
    body: Seq<u8>,
    id: Seq<char>,
    failed: bool,
    e: E,
)
    ensures
        ({
            let end = Some(
                (
                    PhaseView::Stopped,
                    ActionView::<A, B, H, E>::Stop(Err(RunErrorView::Outside(e))),
                ),
            );
            &&& step(PhaseView::Polling, EventView::<A, B, H, E>::Next(Some(Err(e)))) == end
            &&& step(PhaseView::Reading { body }, EventView::<A, B, H, E>::Context(Err(e))) == end
            &&& step(PhaseView::Decoding { id }, EventView::<A, B, H, E>::Decoded(Err(e))) == end
            &&& step(PhaseView::Encoding { id, failed }, EventView::<A, B, H, E>::Encoded(Err(e))) == end
            &&& step(PhaseView::Delivering, EventView::<A, B, H, E>::Delivered(Err(e))) == end
        }),
{
}

/// Once the bytes of an answer are there, they are sent to where the identifier and the outcome
/// of the handler say; where there is no such place, the run stops and says why.
pub proof fn law_bytes_are_sent_to_their_invocation<A, B, H, E>(
    id: Seq<char>,
    failed: bool,
    body: Seq<u8>,
)
    ensures
        ({
            let path = "/runtime/invocation/"@ + id + (if failed {
                "/error"@
            } else {
                "/response"@
            });
            let told = step(
                PhaseView::Encoding { id, failed },
                EventView::<A, B, H, E>::Encoded(Ok(body)),
            );
            let refused = |message: Seq<char>|
                Some(
                    (
                        PhaseView::Stopped,
                        ActionView::<A, B, H, E>::Stop(Err(RunErrorView::Uri(message))),
                    ),
                );
            &&& encode_utf8(path).len() > 65534 ==> told == refused("uri too long"@)
            &&& encode_utf8(path).len() <= 65534 ==> match path_and_query(path) {
                None => told == refused("invalid uri character"@),
                Some(read) => told == Some(
                    (
                        PhaseView::Delivering,
                        ActionView::<A, B, H, E>::Send(
                            (RequestView {
                                method: "POST"@,
                                uri: (UriView {
                                    scheme: None,
                                    authority: None,
                                    path_and_query: Some(read),
                                }),
                                body,
                            }),
                        ),
                    ),
                ),
            }
        }),
{
}

/// A run does not change what it was told: telling it an event that it waits for gives the action
/// with the very values of the event, and telling it another leaves it as it was.
pub proof fn law_a_run_keeps_what_it_was_told<A, B, H, E>(
    run: &mut Run,
    event: Event<A, B, H, E>,
    action: Option<Action<A, B, H, E>>,
)
    requires
        call_ensures(Run::step::<A, B, H, E>, (run, event), action),
    ensures
        action is None ==> final(run)@ == old(run)@,
        action is Some <==> match event {
            Event::Next(_) => old(run)@ is Polling,
            Event::Context(_) => old(run)@ is Reading,
            Event::Decoded(_) => old(run)@ is Decoding,
            Event::Handled(_) => old(run)@ is Handling,
            Event::Encoded(_) => old(run)@ is Encoding,
            Event::Delivered(_) => old(run)@ is Delivering,
        },
        (event matches Event::Next(Some(Ok(res))) && action is Some) ==> (action matches Some(
            Action::ReadContext(headers),
        ) && headers == event->Next_0->0->Ok_0.headers),
        (event matches Event::Decoded(Ok(value)) && action is Some) ==> (action matches Some(
            Action::Call(called),
        ) && called == event->Decoded_0->Ok_0),
        (event matches Event::Handled(Ok(given)) && action is Some) ==> (action matches Some(
            Action::EncodeResponse(written),
        ) && written == event->Handled_0->Ok_0),
        (event matches Event::Handled(Err(failure)) && action is Some) ==> (action matches Some(
            Action::EncodeReport(written),
        ) && written == event->Handled_0->Err_0),
        (event matches Event::Context(Ok(ctx)) && action is Some) ==> final(run)@ == (
        PhaseView::Decoding { id: event->Context_0->Ok_0.id@ }),
        (event matches Event::Encoded(Ok(body)) && action is Some) ==> (action matches Some(
            Action::Send(req),
        ) ==> req.body@ == event->Encoded_0->Ok_0@),
{
}

/// The identifier of an invocation is what the first header of its name holds, whatever headers
/// stand before and after it and however its letters are written; it has to be text. Where no
/// header has the name, there is no identifier.
pub proof fn law_first_header_holds_the_identifier(
    list: &Vec<(String, Vec<u8>)>,
    found: Result<LambdaCtx, ContextError>,
    i: int,
)
    requires
        call_ensures(LambdaCtx::from_headers, (list,), found),
        0 <= i <= list@.len(),
        forall|k: int|
            0 <= k < i ==> !same_but_for_case(
                (#[trigger] list@[k]).0@,
                "lambda-runtime-aws-request-id"@,
            ),
    ensures
        i == list@.len() ==> found == Err::<LambdaCtx, _>(ContextError::NotFound),
        i < list@.len() && same_but_for_case(list@[i].0@, "lambda-runtime-aws-request-id"@)
            ==> if valid_utf8(list@[i].1@) {
            found matches Ok(ctx) && ctx.id@ == decode_utf8(list@[i].1@)
        } else {
            found == Err::<LambdaCtx, _>(ContextError::NotText)
        },
{
    let all = headers(list@);
    lemma_identifier_after(all, i);
    if i < list@.len() {
        assert(all.skip(i)[0] == all[i]);
    }
}

proof fn lemma_identifier_after(all: Seq<(Seq<char>, Seq<u8>)>, i: int)
    requires
        0 <= i <= all.len(),
        forall|k: int| 0 <= k < i ==> !holds_identifier((#[trigger] all[k]).0),
    ensures
        identifier(all) == identifier(all.skip(i)),
    decreases i,
{
    if i == 0 {
        assert(all.skip(0) =~= all);
    } else {
        lemma_identifier_after(all, i - 1);
        assert(all.skip(i - 1)[0] == all[i - 1]);
        assert(all.skip(i - 1).skip(1) =~= all.skip(i));
    }
}

/// What comes of telling a run one more event.
proof fn lemma_told<A, B, H, E>(
    events: Seq<EventView<A, B, H, E>>,
    event: EventView<A, B, H, E>,
)
    ensures
        step(phase_after(events), event) matches Some((phase, action)) ==> phase_after(
            events.push(event),
        ) == phase && actions_after(events.push(event)) == actions_after(events).push(action),
{
    assert(events.push(event).drop_last() =~= events);
}

} // verus!
