//! What a runtime runs: handlers of events.
use vstd::prelude::*;
use core::future::Future;

verus! {

/// A request as the `http` crate has it, handed on as it is.
#[verifier::external_type_specification]
#[verifier::external_body]
#[verifier::reject_recursive_types(T)]
pub struct ExHttpRequest<T>(http::Request<T>);

/// A response as the `http` crate has it, handed on as it is.
#[verifier::external_type_specification]
#[verifier::external_body]
#[verifier::reject_recursive_types(T)]
pub struct ExHttpResponse<T>(http::Response<T>);

/// A trait describing an asynchronous function from `A` to `B`.
pub trait Handler<A, B> {
    /// Errors returned by this handler.
    type Err;

    /// The future response value of this handler.
    type Fut: Future<Output = Result<B, Self::Err>>;

    /// The handler can be called with `event`.
    open spec fn accepts(&self, event: A) -> bool {
        true
    }

    /// `fut` is what calling the handler with `event` may give.
    open spec fn answers(&self, event: A, fut: Self::Fut) -> bool {
        true
    }

    /// Process the incoming event and return the response asynchronously.
    fn call(&mut self, event: A) -> (fut: Self::Fut)
        requires
            old(self).accepts(event),
        ensures
            old(self).answers(event, fut),
    ;
}

/// A handler of HTTP requests.
pub trait HttpHandler<A, B>: Handler<http::Request<A>, http::Response<B>> {
    /// Process the incoming request and return the response asynchronously.
    fn call_http(&mut self, event: http::Request<A>) -> (fut: <Self as Handler<
        http::Request<A>,
        http::Response<B>,
    >>::Fut)
        requires
            old(self).accepts(event),
        ensures
            old(self).answers(event, fut),
    ;
}

/// Returns a new `HandlerFn` with the given closure.
pub fn handler_fn<F>(f: F) -> (handler: HandlerFn<F>)
    ensures
        handler.function() == f,
{
    HandlerFn { f }
}

/// A `Handler` or `HttpHandler` implemented by a closure.
#[derive(Copy, Clone, Debug)]
pub struct HandlerFn<F> {
    f: F,
}

impl<F> HandlerFn<F> {
    /// The closure that is called.
    pub closed spec fn function(&self) -> F {
        self.f
    }
}

impl<F, A, B, E, Fut> Handler<A, B> for HandlerFn<F> where
    F: Fn(A) -> Fut,
    Fut: Future<Output = Result<B, E>> + Send,
 {
    type Err = E;

    type Fut = Fut;

    open spec fn accepts(&self, event: A) -> bool {
        call_requires(self.function(), (event,))
    }

    open spec fn answers(&self, event: A, fut: Fut) -> bool {
        call_ensures(self.function(), (event,), fut)
    }

    fn call(&mut self, event: A) -> (fut: Fut)
        ensures
            *final(self) == *old(self),
            call_ensures(old(self).function(), (event,), fut),
    {
        (self.f)(event)
    }
}

impl<F, A, B, E, Fut> HttpHandler<A, B> for HandlerFn<F> where
    F: Fn(http::Request<A>) -> Fut,
    Fut: Send + Future<Output = Result<http::Response<B>, E>>,
 {
    fn call_http(&mut self, event: http::Request<A>) -> (fut: Fut)
        ensures
            *final(self) == *old(self),
            call_ensures(old(self).function(), (event,), fut),
    {
        (self.f)(event)
    }
}

} // verus!
