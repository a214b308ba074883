use chttp::client::Client;
use chttp::client::PRELOADED_TRANSPORTS;
use chttp::error::Error;
use chttp::options::Options;
use chttp::pool::Pool;
use chttp::pool::Stream;
use chttp::request::Method;

#[test]
fn empty_pool_creates_exactly_one_transport() {
    let mut pool = Pool::new(None);
    let t = pool.acquire().unwrap();
    assert_eq!(pool.created, 1);
    assert_eq!(pool.idle.len(), 0);

    // Full consumption or drop: the stream returns the transport once.
    let mut stream = Stream::new(t);
    stream.finish(&mut pool);
    assert_eq!(pool.idle.len(), 1);
    assert_eq!(pool.created, 1);

    // A subsequent checkout reuses it; nothing new is created.
    let t2 = pool.acquire().unwrap();
    assert_eq!(t2.id, 0);
    assert_eq!(pool.created, 1);
}

#[test]
fn release_happens_exactly_once_per_checkout() {
    let mut pool = Pool::new(None);
    let t = pool.acquire().unwrap();
    let mut stream = Stream::new(t);
    stream.finish(&mut pool);
    assert_eq!(pool.idle.len(), 1);
    // The second finish is a no-op: nothing is pushed twice.
    stream.finish(&mut pool);
    assert_eq!(pool.idle.len(), 1);
}

#[test]
fn no_transport_has_two_owners() {
    let mut pool = Pool::new(None);
    pool.preload(3);
    let a = pool.acquire().unwrap();
    let b = pool.acquire().unwrap();
    let c = pool.acquire().unwrap();
    let d = pool.acquire().unwrap(); // created on demand
    let ids = [a.id, b.id, c.id, d.id];
    for i in 0..ids.len() {
        for j in 0..i {
            assert_ne!(ids[i], ids[j]);
        }
    }
}

#[test]
fn discard_drops_transport_when_pool_is_gone() {
    let mut pool = Pool::new(None);
    let t = pool.acquire().unwrap();
    let mut stream = Stream::new(t);
    drop(pool);
    // The pool has been torn down: the transport is silently dropped.
    stream.discard();
    assert!(stream.transport.is_none());
}

#[test]
fn cap_rejects_with_too_many_connections() {
    let mut pool = Pool::new(Some(2));
    assert!(pool.acquire().is_some());
    assert!(pool.acquire().is_some());
    assert!(pool.acquire().is_none(), "the cap is exceeded");
    assert_eq!(pool.created, 2);
}

#[test]
fn client_preloads_and_reuses_transports() {
    let mut client = Client::default();
    assert_eq!(client.pool.idle.len(), PRELOADED_TRANSPORTS);
    assert_eq!(client.pool.created as usize, PRELOADED_TRANSPORTS);

    let checkout = client.get(b"http://example.com/").unwrap();
    assert_eq!(checkout.request.method, Method::Get);
    assert_eq!(checkout.request.uri, b"http://example.com/".to_vec());
    assert_eq!(client.pool.idle.len(), PRELOADED_TRANSPORTS - 1);

    let mut stream = client.create_stream(checkout.transport);
    stream.finish(&mut client.pool);
    assert_eq!(client.pool.idle.len(), PRELOADED_TRANSPORTS);
    assert_eq!(client.pool.created as usize, PRELOADED_TRANSPORTS, "no extra creation");
}

#[test]
fn sends_beyond_preload_create_on_demand() {
    let mut client = Client::with_options(Options::new());
    let mut checkouts = Vec::new();
    for _ in 0..PRELOADED_TRANSPORTS + 2 {
        let c = client.post(b"http://example.com/", b"payload".to_vec()).unwrap();
        checkouts.push(c);
    }
    assert_eq!(client.pool.created as usize, PRELOADED_TRANSPORTS + 2);
}

#[test]
fn capped_client_fails_with_too_many_connections() {
    let mut client = Client::with_options(Options::new());
    client.pool.max_transports = Some(client.pool.created);
    // Drain every idle transport, then one more send must fail.
    let n = client.pool.idle.len();
    for _ in 0..n {
        client.delete(b"http://example.com/x").unwrap();
    }
    let r = client.put(b"http://example.com/x", Vec::new());
    assert!(matches!(r, Err(Error::TooManyConnections)));
}

#[test]
fn bad_uri_is_a_build_error() {
    let mut client = Client::default();
    let r = client.get(b"not a uri");
    assert!(matches!(r, Err(Error::RequestBuildError)));
    assert_eq!(client.pool.idle.len(), PRELOADED_TRANSPORTS, "nothing was checked out");
}

#[test]
fn default_options_match_documentation() {
    let o = Options::default();
    assert_eq!(o.redirect_policy, chttp::options::RedirectPolicy::NoFollow);
    assert!(o.preferred_http_version.is_none());
    assert!(o.timeout.is_none());
    assert_eq!(o.connect_timeout, 300_000);
    assert!(o.tcp_keepalive.is_none());
    assert!(!o.tcp_nodelay);
    assert!(!o.auto_referer);
    assert!(o.proxy.is_none());
    assert!(o.ssl_cipher_list.is_none());
}
