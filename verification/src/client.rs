use vstd::prelude::*;
use crate::error::Error;
use crate::options::Options;
use crate::pool::Pool;
use crate::pool::Stream;
use crate::pool::Transport;
use crate::request::Method;
use crate::request::Request;
use crate::request::uri_ok;

verus! {

/// How many transports a client preloads into its pool at creation.
pub const PRELOADED_TRANSPORTS: usize = 32;

/// One checked-out unit of work: the request to execute and the
/// transport that will carry it, exclusively owned until the
/// response's stream gives it back.
pub struct Checkout {
    pub request: Request,
    pub transport: Transport,
}

/// An HTTP client front end: it holds the configuration snapshot and
/// the transport pool, builds requests, and checks a transport out
/// for each send. A client is expensive to create; re-use it rather
/// than recreating it per request.
pub struct Client {
    pub options: Options,
    pub pool: Pool,
}

impl Default for Client {
    fn default() -> (c: Client)
        ensures
            c.pool.wf(),
            c.pool.idle@.len() == PRELOADED_TRANSPORTS,
            c.pool.created == PRELOADED_TRANSPORTS as u64,
            c.pool.max_transports is None,
            crate::options::is_default_options(c.options),
    {
        Client::with_options(Options::default())
    }
}

impl Client {
    /// A client over the given options, with its pool preloaded and
    /// no cap on transport creation.
    pub fn with_options(options: Options) -> (c: Client)
        ensures
            c.pool.wf(),
            c.pool.idle@.len() == PRELOADED_TRANSPORTS,
            c.pool.created == PRELOADED_TRANSPORTS as u64,
            c.pool.max_transports is None,
            c.options == options,
    {
        let mut pool = Pool::new(Option::None);
        pool.preload(PRELOADED_TRANSPORTS);
        Client { options, pool }
    }

    /// Check out the work for one request: an idle transport, or a
    /// fresh one when none is idle and the cap allows. Fails with
    /// `TooManyConnections` exactly when the pool is empty and capped
    /// out; nothing else can fail here.
    pub fn send(&mut self, request: Request) -> (r: Result<Checkout, Error>)
        requires
            old(self).pool.wf(),
            old(self).pool.created < u64::MAX,
        ensures
            final(self).options == old(self).options,
            final(self).pool.wf(),
            match r {
                Ok(c) => c.request == request && Pool::acquire_step(
                    old(self).pool,
                    final(self).pool,
                    Option::Some(c.transport),
                ),
                Err(e) => e == Error::TooManyConnections && Pool::acquire_step(
                    old(self).pool,
                    final(self).pool,
                    Option::<Transport>::None,
                ),
            },
            r is Err <==> (old(self).pool.idle@.len() == 0 && !old(self).pool.under_cap()),
    {
        match self.pool.acquire() {
            Option::Some(t) => Ok(Checkout { request, transport: t }),
            Option::None => Err(Error::TooManyConnections),
        }
    }

    /// Build and check out a GET request.
    pub fn get(&mut self, uri: &[u8]) -> (r: Result<Checkout, Error>)
        requires
            old(self).pool.wf(),
            old(self).pool.created < u64::MAX,
        ensures
            final(self).options == old(self).options,
            final(self).pool.wf(),
            !uri_ok(uri@) ==> (r matches Err(e) && e == Error::RequestBuildError && *final(self)
                == *old(self)),
            uri_ok(uri@) ==> match r {
                Ok(c) => c.request.method == Method::Get && c.request.uri@ == uri@
                    && c.request.body@.len() == 0 && c.request.headers@.len() == 0
                    && Pool::acquire_step(
                    old(self).pool,
                    final(self).pool,
                    Option::Some(c.transport),
                ),
                Err(e) => e == Error::TooManyConnections && old(self).pool.idle@.len() == 0
                    && !old(self).pool.under_cap(),
            },
    {
        let request = match Request::build(Method::Get, uri, Vec::new()) {
            Ok(q) => q,
            Err(e) => {
                return Err(e);
            },
        };
        self.send(request)
    }

    /// Build and check out a POST request carrying `body`.
    pub fn post(&mut self, uri: &[u8], body: Vec<u8>) -> (r: Result<Checkout, Error>)
        requires
            old(self).pool.wf(),
            old(self).pool.created < u64::MAX,
        ensures
            final(self).options == old(self).options,
            final(self).pool.wf(),
            !uri_ok(uri@) ==> (r matches Err(e) && e == Error::RequestBuildError && *final(self)
                == *old(self)),
            uri_ok(uri@) ==> match r {
                Ok(c) => c.request.method == Method::Post && c.request.uri@ == uri@
                    && c.request.body == body && c.request.headers@.len() == 0
                    && Pool::acquire_step(
                    old(self).pool,
                    final(self).pool,
                    Option::Some(c.transport),
                ),
                Err(e) => e == Error::TooManyConnections && old(self).pool.idle@.len() == 0
                    && !old(self).pool.under_cap(),
            },
    {
        let request = match Request::build(Method::Post, uri, body) {
            Ok(q) => q,
            Err(e) => {
                return Err(e);
            },
        };
        self.send(request)
    }

    /// Build and check out a PUT request carrying `body`.
    pub fn put(&mut self, uri: &[u8], body: Vec<u8>) -> (r: Result<Checkout, Error>)
        requires
            old(self).pool.wf(),
            old(self).pool.created < u64::MAX,
        ensures
            final(self).options == old(self).options,
            final(self).pool.wf(),
            !uri_ok(uri@) ==> (r matches Err(e) && e == Error::RequestBuildError && *final(self)
                == *old(self)),
            uri_ok(uri@) ==> match r {
                Ok(c) => c.request.method == Method::Put && c.request.uri@ == uri@
                    && c.request.body == body && c.request.headers@.len() == 0
                    && Pool::acquire_step(
                    old(self).pool,
                    final(self).pool,
                    Option::Some(c.transport),
                ),
                Err(e) => e == Error::TooManyConnections && old(self).pool.idle@.len() == 0
                    && !old(self).pool.under_cap(),
            },
    {
        let request = match Request::build(Method::Put, uri, body) {
            Ok(q) => q,
            Err(e) => {
                return Err(e);
            },
        };
        self.send(request)
    }

    /// Build and check out a DELETE request.
    pub fn delete(&mut self, uri: &[u8]) -> (r: Result<Checkout, Error>)
        requires
            old(self).pool.wf(),
            old(self).pool.created < u64::MAX,
        ensures
            final(self).options == old(self).options,
            final(self).pool.wf(),
            !uri_ok(uri@) ==> (r matches Err(e) && e == Error::RequestBuildError && *final(self)
                == *old(self)),
            uri_ok(uri@) ==> match r {
                Ok(c) => c.request.method == Method::Delete && c.request.uri@ == uri@
                    && c.request.body@.len() == 0 && c.request.headers@.len() == 0
                    && Pool::acquire_step(
                    old(self).pool,
                    final(self).pool,
                    Option::Some(c.transport),
                ),
                Err(e) => e == Error::TooManyConnections && old(self).pool.idle@.len() == 0
                    && !old(self).pool.under_cap(),
            },
    {
        let request = match Request::build(Method::Delete, uri, Vec::new()) {
            Ok(q) => q,
            Err(e) => {
                return Err(e);
            },
        };
        self.send(request)
    }

    /// Wrap a checked-out transport in the stream that will return it
    /// to this client's pool exactly once.
    pub fn create_stream(&self, transport: Transport) -> (s: Stream)
        ensures
            s.transport == Option::Some(transport),
    {
        Stream::new(transport)
    }
}

} // verus!
