use futures::executor::block_on;
use lambda::{handler_fn, Handler, HttpHandler};
use std::future::{ready, Ready};

struct Doubling {
    calls: u32,
}

impl Handler<u32, u32> for Doubling {
    type Err = String;
    type Fut = Ready<Result<u32, String>>;

    fn call(&mut self, event: u32) -> Self::Fut {
        self.calls += 1;
        ready(Ok(2 * event))
    }
}

async fn echo(event: String) -> Result<String, String> {
    Ok(event)
}

async fn refuse(event: String) -> Result<String, String> {
    Err(format!("no {}", event))
}

async fn serve(req: http::Request<u8>) -> Result<http::Response<u8>, String> {
    Ok(http::Response::new(*req.body() + 1))
}

#[test]
fn function_is_called_with_the_event() {
    let mut handler = handler_fn(echo);
    assert_eq!(block_on(handler.call("a".to_string())), Ok("a".to_string()));
    assert_eq!(block_on(handler.call("b".to_string())), Ok("b".to_string()));
}

#[test]
fn failure_of_the_function_is_handed_on() {
    let mut handler = handler_fn(refuse);
    assert_eq!(block_on(handler.call("a".to_string())), Err("no a".to_string()));
}

#[test]
fn function_handles_http_requests() {
    let mut handler = handler_fn(serve);
    let res = block_on(handler.call_http(http::Request::new(1))).unwrap();
    assert_eq!(*res.body(), 2);
    let res = block_on(handler.call(http::Request::new(2))).unwrap();
    assert_eq!(*res.body(), 3);
}

#[test]
fn handler_of_a_function_can_be_copied() {
    let handler = handler_fn(echo);
    let mut copy = handler;
    assert_eq!(block_on(copy.call("a".to_string())), Ok("a".to_string()));
    let mut handler = handler.clone();
    assert_eq!(block_on(handler.call("a".to_string())), Ok("a".to_string()));
}

#[test]
fn any_type_can_be_a_handler() {
    let mut handler = Doubling { calls: 0 };
    assert_eq!(block_on(handler.call(21)), Ok(42));
    assert_eq!(handler.calls, 1);
}
