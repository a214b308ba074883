use vstd::prelude::*;

verus! {

/// Protocol versions recognized in a response status line.
#[derive(Clone, Copy, Debug, PartialEq, Eq, Structural)]
pub enum HttpVersion {
    Http09,
    Http10,
    Http11,
    Http2,
}

/// Describes a policy for handling server redirects.
#[derive(Clone, Copy, Debug, PartialEq, Eq, Structural)]
pub enum RedirectPolicy {
    /// Do not apply any special treatment to redirect responses; the
    /// response is returned as-is and redirects are not followed.
    ///
    /// This is the default policy.
    NoFollow,
    /// Follow all redirects automatically.
    Follow,
    /// Follow redirects automatically up to a maximum number of redirects.
    Limit(u32),
}

impl Default for RedirectPolicy {
    fn default() -> (r: RedirectPolicy)
        ensures
            r == RedirectPolicy::NoFollow,
    {
        RedirectPolicy::NoFollow
    }
}

/// Defines various protocol and connection options.
///
/// An `Options` value is an immutable configuration snapshot: it is built
/// once per client and cloned for each transfer. Durations are carried as
/// whole milliseconds.
#[derive(Clone, Debug)]
pub struct Options {
    /// The policy for automatically following server redirects.
    ///
    /// The default is to not follow redirects.
    pub redirect_policy: RedirectPolicy,

    /// A preferred HTTP version the client should attempt to use.
    ///
    /// This is treated as a suggestion; the server may negotiate another
    /// version. The default value is `None` (any version).
    pub preferred_http_version: Option<HttpVersion>,

    /// A cap on the whole request-response cycle, in milliseconds.
    ///
    /// The default value is `None` (unlimited).
    pub timeout: Option<u64>,

    /// A timeout for the initial connection phase, in milliseconds.
    ///
    /// The default value is 300 seconds.
    pub connect_timeout: u64,

    /// Enable TCP keepalive with the given probe interval in milliseconds.
    ///
    /// The default value is `None` (disabled).
    pub tcp_keepalive: Option<u64>,

    /// Enable or disable the `TCP_NODELAY` socket option.
    ///
    /// The default value is `false`.
    pub tcp_nodelay: bool,

    /// Indicates whether the `Referer` header should be automatically
    /// updated when a redirect is followed.
    ///
    /// The default value is `false`.
    pub auto_referer: bool,

    /// A proxy to use for requests, as a URI whose scheme selects the
    /// proxy protocol.
    ///
    /// The default value is `None` (no proxy).
    pub proxy: Option<String>,

    /// A cipher list to use for TLS, in the engine's own syntax.
    ///
    /// The default value is `None` (the engine's compiled-in default).
    pub ssl_cipher_list: Option<String>,
}

/// The documented default for every configuration field.
pub open spec fn is_default_options(o: Options) -> bool {
    &&& o.redirect_policy == RedirectPolicy::NoFollow
    &&& o.preferred_http_version is None
    &&& o.timeout is None
    &&& o.connect_timeout == 300_000u64
    &&& o.tcp_keepalive is None
    &&& o.tcp_nodelay == false
    &&& o.auto_referer == false
    &&& o.proxy is None
    &&& o.ssl_cipher_list is None
}

impl Default for Options {
    fn default() -> (r: Options)
        ensures
            is_default_options(r),
    {
        Options {
            redirect_policy: RedirectPolicy::NoFollow,
            preferred_http_version: None,
            timeout: None,
            connect_timeout: 300_000,
            tcp_keepalive: None,
            tcp_nodelay: false,
            auto_referer: false,
            proxy: None,
            ssl_cipher_list: None,
        }
    }
}

impl Options {
    /// Create a new set of options with every field at its default.
    pub fn new() -> (r: Options)
        ensures
            is_default_options(r),
    {
        Options::default()
    }
}

} // verus!
