//! The requests for events that a stream has sent.
use vstd::prelude::*;
use vstd::future::FutureAdditionalSpecFns;
use core::pin::Pin;
use crate::client::{pin_future, EventClient};
use crate::message::RequestView;
use crate::requests::NextEventRequest;
use crate::uri::UriView;

verus! {

/// The only way to a client: through it, each request for an event is written down.
pub struct Requests<'a, T: EventClient<'a>> {
    client: &'a T,
    sent: Ghost<Seq<Pin<Box<T::Fut>>>>,
}

impl<'a, T: EventClient<'a>> Requests<'a, T> {
    /// The client that events are asked for with.
    pub closed spec fn client(&self) -> T {
        *self.client
    }

    /// What is to come of each request that was sent, in order.
    pub closed spec fn sent(&self) -> Seq<Pin<Box<T::Fut>>> {
        self.sent@
    }

    /// No request was sent yet.
    pub(crate) fn new(client: &'a T) -> (requests: Self)
        ensures
            requests.client() == *client,
            requests.sent() == Seq::<Pin<Box<T::Fut>>>::empty(),
    {
        Requests { client, sent: Ghost(Seq::empty()) }
    }

    /// Asks for the next event.
    pub(crate) fn ask(&mut self) -> (fut: Pin<Box<T::Fut>>)
        ensures
            final(self).client() == old(self).client(),
            final(self).sent() == old(self).sent().push(fut),
            old(self).client().got(
                (RequestView {
                    method: "GET"@,
                    uri: (UriView {
                        scheme: None,
                        authority: None,
                        path_and_query: Some("/2018-06-01/runtime/invocation/next"@),
                    }),
                    body: (),
                }),
                fut@,
            ),
    {
        let req = match NextEventRequest::new().try_into() {
            Ok(req) => req,
            Err(_) => vstd::pervasive::unreached(),
        };
        let fut = pin_future(self.client.get(req));
        proof {
            self.sent@ = self.sent@.push(fut);
        }
        fut
    }
}

} // verus!
