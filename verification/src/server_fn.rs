//! Server functions: named operations that are called the same way whether
//! they run in this process or on the other side of a network boundary.
//!
//! A [`Registry`] maps each stable key to its handler. It is filled once at
//! start-up and only read afterwards. [`Registry::dispatch`] answers a call in
//! process; [`call_server_fn`] picks between that and a request to be sent,
//! by the [`Strategy`] chosen when the program was put together.

use crate::reply::{decoded, HttpReply};
use crate::text::same_text;
use vstd::prelude::*;
use vstd::slice::slice_to_vec;

verus! {

/// Why a call of a server function failed.
#[derive(Clone, Debug, PartialEq, Eq)]
pub enum ServerCallError {
    /// No function is registered under the key.
    NotFound,
    /// The arguments or the result payload could not be read.
    Deserialization(String),
    /// The function itself reported a failure.
    Application(String),
}

/// What a [`ServerCallError`] holds, as plain text.
pub enum ServerCallErrorView {
    NotFound,
    Deserialization(Seq<char>),
    Application(Seq<char>),
}

impl View for ServerCallError {
    type V = ServerCallErrorView;

    open spec fn view(&self) -> ServerCallErrorView {
        match self {
            ServerCallError::NotFound => ServerCallErrorView::NotFound,
            ServerCallError::Deserialization(detail) => ServerCallErrorView::Deserialization(
                detail@,
            ),
            ServerCallError::Application(detail) => ServerCallErrorView::Application(detail@),
        }
    }
}

/// The outcome of a call as contracts see it: the serialized result, or the
/// error.
pub type Outcome = Result<Seq<char>, ServerCallErrorView>;

/// The outcome of a call, as plain text.
pub open spec fn outcome_view(outcome: Result<String, ServerCallError>) -> Outcome {
    match outcome {
        Ok(payload) => Ok(payload@),
        Err(error) => Err(error@),
    }
}

/// A server function: takes serialized arguments, gives a serialized result.
pub trait ServerFn {
    /// Whether the function can answer `args` with `outcome`. Unless an
    /// implementation says more, any outcome can come of a call.
    open spec fn answers(&self, args: Seq<u8>, outcome: Outcome) -> bool {
        true
    }

    /// Calls the function on serialized arguments.
    fn call(&self, args: &[u8]) -> (outcome: Result<String, ServerCallError>)
        ensures
            self.answers(args@, outcome_view(outcome)),
    ;
}

/// The server functions of a process, each under its key.
pub struct Registry<H> {
    keys: Vec<String>,
    handlers: Vec<H>,
}

impl<H> Registry<H> {
    /// The registered keys, in order of registration.
    pub closed spec fn keys(&self) -> Seq<Seq<char>> {
        self.keys.deep_view()
    }

    /// The registered handlers, each at the position of its key.
    pub closed spec fn handlers(&self) -> Seq<H> {
        self.handlers@
    }

    /// Every key has its handler, and no key is registered twice.
    pub open spec fn wf(&self) -> bool {
        &&& self.keys().len() == self.handlers().len()
        &&& self.keys().no_duplicates()
    }

    /// Whether a function is registered under `key`.
    pub open spec fn is_registered(&self, key: Seq<char>) -> bool {
        self.keys().contains(key)
    }

    /// The handler registered under `key`.
    pub open spec fn handler_for(&self, key: Seq<char>) -> H
        recommends
            self.is_registered(key),
    {
        self.handlers()[self.keys().index_of(key)]
    }

    /// A registry without functions.
    pub fn new() -> (registry: Self)
        ensures
            registry.wf(),
            registry.keys() == Seq::<Seq<char>>::empty(),
            registry.handlers() == Seq::<H>::empty(),
    {
        let registry = Registry { keys: Vec::new(), handlers: Vec::new() };
        assert(registry.keys() =~= Seq::<Seq<char>>::empty());
        registry
    }

    /// The number of registered functions.
    pub fn len(&self) -> (len: usize)
        ensures
            len == self.keys().len(),
    {
        self.keys.len()
    }

    fn position(&self, key: &str) -> (at: Option<usize>)
        requires
            self.wf(),
        ensures
            match at {
                Some(i) => self.is_registered(key@) && i == self.keys().index_of(key@) && i
                    < self.keys().len(),
                None => !self.is_registered(key@),
            },
    {
        let mut i: usize = 0;
        while i < self.keys.len()
            invariant
                self.wf(),
                i <= self.keys.len(),
                forall|j: int| 0 <= j < i ==> self.keys()[j] != key@,
            decreases self.keys.len() - i,
        {
            assert(self.keys()[i as int] == self.keys[i as int]@);
            if same_text(self.keys[i].as_str(), key) {
                proof {
                    let found = self.keys().index_of(key@);
                    assert(self.keys()[i as int] == key@);
                    assert(self.keys().contains(key@));
                    assert(0 <= found < self.keys().len() && self.keys()[found] == key@);
                    assert(found == i);
                }
                return Some(i);
            }
            i = i + 1;
        }
        None
    }

    /// Whether a function is registered under `key`.
    pub fn contains(&self, key: &str) -> (found: bool)
        requires
            self.wf(),
        ensures
            found == self.is_registered(key@),
    {
        self.position(key).is_some()
    }

    /// Registers `handler` under `key`. Registering a key twice is a
    /// programming error, to be found before any call is served: the key must
    /// be new.
    pub fn register(&mut self, key: String, handler: H)
        requires
            old(self).wf(),
            !old(self).is_registered(key@),
        ensures
            final(self).wf(),
            final(self).keys() == old(self).keys().push(key@),
            final(self).handlers() == old(self).handlers().push(handler),
            final(self).is_registered(key@),
            final(self).handler_for(key@) == handler,
    {
        self.keys.push(key);
        self.handlers.push(handler);
        proof {
            assert(self.keys() =~= old(self).keys().push(key@));
            let last = old(self).keys().len() as int;
            assert(self.keys()[last] == key@);
        }
    }

    /// The handler registered under `key`, if there is one.
    pub fn lookup(&self, key: &str) -> (handler: Option<&H>)
        requires
            self.wf(),
        ensures
            match handler {
                Some(h) => self.is_registered(key@) && *h == self.handler_for(key@),
                None => !self.is_registered(key@),
            },
    {
        match self.position(key) {
            Some(i) => Some(&self.handlers[i]),
            None => None,
        }
    }
}

/// What a call of `key` with `args` may come to in `registry`: under an
/// unregistered key nothing but `NotFound`; under a registered key whatever
/// its handler can answer.
pub open spec fn dispatched<H: ServerFn>(
    registry: Registry<H>,
    key: Seq<char>,
    args: Seq<u8>,
    outcome: Outcome,
) -> bool {
    if registry.is_registered(key) {
        registry.handler_for(key).answers(args, outcome)
    } else {
        outcome == Err::<Seq<char>, ServerCallErrorView>(ServerCallErrorView::NotFound)
    }
}

/// A call under a key that is not registered comes to `NotFound` and to
/// nothing else, whatever the arguments.
pub proof fn lemma_unknown_key_not_found<H: ServerFn>(
    registry: Registry<H>,
    key: Seq<char>,
    args: Seq<u8>,
    outcome: Outcome,
)
    requires
        !registry.is_registered(key),
    ensures
        dispatched(registry, key, args, outcome) <==> outcome == Err::<
            Seq<char>,
            ServerCallErrorView,
        >(ServerCallErrorView::NotFound),
{
}

impl<H: ServerFn> Registry<H> {
    /// Calls the function registered under `key` with `args`, in process. An
    /// unknown key yields `NotFound`; no handler is looked at for it.
    pub fn dispatch(&self, key: &str, args: &[u8]) -> (outcome: Result<String, ServerCallError>)
        requires
            self.wf(),
        ensures
            dispatched(*self, key@, args@, outcome_view(outcome)),
    {
        match self.lookup(key) {
            Some(handler) => handler.call(args),
            None => Err(ServerCallError::NotFound),
        }
    }
}

/// Where calls of server functions are carried out.
#[derive(Clone, Copy, Debug, PartialEq, Eq, Structural)]
pub enum Strategy {
    /// In this process, through the registry.
    Local,
    /// On the other side: the call becomes a request to be sent.
    Remote,
}

/// A call that has to travel: the request to send on its behalf.
#[derive(Clone, Debug, PartialEq, Eq)]
pub struct RemoteRequest {
    /// The key of the function, which is the route of the request.
    pub route: String,
    /// The response format the caller accepts.
    pub accept: String,
    /// The serialized arguments.
    pub body: Vec<u8>,
}

/// How far a call got.
#[derive(Debug)]
pub enum Call {
    /// The call was answered in process.
    Done(Result<String, ServerCallError>),
    /// The call is to be sent; [`finish_remote`] reads the reply.
    Send(RemoteRequest),
}

/// The response format a remote caller asks for.
pub open spec fn structured_format() -> Seq<char> {
    "application/json"@
}

/// Calls the server function `key` with `args` by `strategy`. Locally the
/// registry answers at once. Remotely the call becomes a request that carries
/// the key as its route and the same serialized arguments untouched, and asks
/// for a structured response.
pub fn call_server_fn<H: ServerFn>(
    strategy: Strategy,
    registry: &Registry<H>,
    key: &str,
    args: &[u8],
) -> (call: Call)
    requires
        registry.wf(),
    ensures
        match call {
            Call::Done(outcome) => strategy == Strategy::Local && dispatched(
                *registry,
                key@,
                args@,
                outcome_view(outcome),
            ),
            Call::Send(request) => strategy == Strategy::Remote && request.route@ == key@
                && request.accept@ == structured_format() && request.body@ == args@,
        },
{
    match strategy {
        Strategy::Local => Call::Done(registry.dispatch(key, args)),
        Strategy::Remote => Call::Send(
            RemoteRequest {
                route: key.to_owned(),
                accept: "application/json".to_owned(),
                body: slice_to_vec(args),
            },
        ),
    }
}

/// Reads the reply to a sent call back into the outcome the caller sees.
pub fn finish_remote(reply: HttpReply) -> (outcome: Result<String, ServerCallError>)
    ensures
        outcome_view(outcome) == decoded(reply@),
{
    reply.into_outcome()
}

} // verus!
