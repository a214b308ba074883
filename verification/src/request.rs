use vstd::prelude::*;
use crate::buffer::copy_range;
use crate::error::Error;
use crate::options::HttpVersion;
use crate::transfer::is_utf8;
use crate::transfer::is_utf8_bytes;

verus! {

/// One header field, as raw bytes, exactly as it appeared on the wire.
#[derive(Clone, Debug)]
pub struct HeaderField {
    pub name: Vec<u8>,
    pub value: Vec<u8>,
}

impl View for HeaderField {
    type V = (Seq<u8>, Seq<u8>);

    open spec fn view(&self) -> (Seq<u8>, Seq<u8>) {
        (self.name@, self.value@)
    }
}

/// The header collection as a sequence of (name, value) pairs, in
/// receipt order, duplicate names allowed.
pub open spec fn fields_view(hs: Seq<HeaderField>) -> Seq<(Seq<u8>, Seq<u8>)> {
    hs.map(|i: int, h: HeaderField| h@)
}

/// Request methods the client façade offers.
#[derive(Clone, Copy, Debug, PartialEq, Eq, Structural)]
pub enum Method {
    Get,
    Post,
    Put,
    Delete,
}

/// A target URI this library accepts: non-empty visible ASCII with no
/// spaces. Anything else is rejected when the request is built.
pub open spec fn uri_ok(s: Seq<u8>) -> bool {
    s.len() > 0 && (forall|i: int| 0 <= i < s.len() ==> 33 <= #[trigger] s[i] <= 126)
}

/// A header name this library accepts: non-empty visible ASCII with
/// no colon.
pub open spec fn header_name_ok(s: Seq<u8>) -> bool {
    s.len() > 0 && (forall|i: int| 0 <= i < s.len() ==> 33 <= #[trigger] s[i] <= 126 && s[i]
        != 58)
}

/// A header value this library accepts: well-formed UTF-8 with no
/// line break, so it survives the wire intact.
pub open spec fn header_value_ok(s: Seq<u8>) -> bool {
    is_utf8(s) && (forall|i: int| 0 <= i < s.len() ==> #[trigger] s[i] != 13 && s[i] != 10)
}

/// An outgoing request: method, target URI, extra header fields, and
/// the outbound body payload.
#[derive(Clone, Debug)]
pub struct Request {
    pub method: Method,
    pub uri: Vec<u8>,
    pub headers: Vec<HeaderField>,
    pub body: Vec<u8>,
}

impl Request {
    /// Build a request. Succeeds exactly when the URI is acceptable;
    /// a bad URI is reported as a build error before anything is sent.
    pub fn build(method: Method, uri: &[u8], body: Vec<u8>) -> (r: Result<Request, Error>)
        ensures
            uri_ok(uri@) ==> (r matches Ok(q) && q.method == method && q.uri@ == uri@
                && q.headers@.len() == 0 && q.body == body),
            !uri_ok(uri@) ==> (r matches Err(e) && e == Error::RequestBuildError),
    {
        if uri.len() == 0 {
            return Err(Error::RequestBuildError);
        }
        let mut i: usize = 0;
        while i < uri.len()
            invariant
                i <= uri@.len(),
                forall|j: int| 0 <= j < i ==> 33 <= #[trigger] uri@[j] <= 126,
            decreases uri@.len() - i,
        {
            let b = uri[i];
            if b < 33 || b > 126 {
                return Err(Error::RequestBuildError);
            }
            i += 1;
        }
        let u = copy_range(uri, 0, uri.len());
        proof {
            assert(u@ =~= uri@);
        }
        Ok(Request { method, uri: u, headers: Vec::new(), body })
    }

    /// Append a header field to the request, preserving order. A
    /// malformed name or value is a build error and changes nothing.
    pub fn header(&mut self, name: &[u8], value: &[u8]) -> (r: Result<(), Error>)
        ensures
            final(self).method == old(self).method,
            final(self).uri == old(self).uri,
            final(self).body == old(self).body,
            header_name_ok(name@) && header_value_ok(value@) ==> (r is Ok && fields_view(
                final(self).headers@,
            ) == fields_view(old(self).headers@).push((name@, value@))),
            !(header_name_ok(name@) && header_value_ok(value@)) ==> (r matches Err(e) && e
                == Error::RequestBuildError && *final(self) == *old(self)),
    {
        if name.len() == 0 {
            return Err(Error::RequestBuildError);
        }
        let mut i: usize = 0;
        while i < name.len()
            invariant
                i <= name@.len(),
                forall|j: int|
                    0 <= j < i ==> 33 <= #[trigger] name@[j] <= 126 && name@[j] != 58,
            decreases name@.len() - i,
        {
            let b = name[i];
            if b < 33 || b > 126 || b == 58 {
                return Err(Error::RequestBuildError);
            }
            i += 1;
        }
        if !is_utf8_bytes(value) {
            return Err(Error::RequestBuildError);
        }
        let mut i: usize = 0;
        while i < value.len()
            invariant
                i <= value@.len(),
                forall|j: int| 0 <= j < i ==> #[trigger] value@[j] != 13 && value@[j] != 10,
            decreases value@.len() - i,
        {
            let b = value[i];
            if b == 13 || b == 10 {
                return Err(Error::RequestBuildError);
            }
            i += 1;
        }
        let n = copy_range(name, 0, name.len());
        let v = copy_range(value, 0, value.len());
        proof {
            assert(n@ =~= name@);
            assert(v@ =~= value@);
        }
        let h = HeaderField { name: n, value: v };
        self.headers.push(h);
        proof {
            assert(fields_view(self.headers@) =~= fields_view(old(self).headers@).push(
                (name@, value@),
            ));
        }
        Ok(())
    }
}

/// The caller-visible response snapshot: protocol version, status code
/// and the header collection. It is complete as soon as the header
/// section has been parsed; the body arrives separately as a stream.
#[derive(Clone, Debug)]
pub struct Response {
    pub version: HttpVersion,
    pub status: u16,
    pub headers: Vec<HeaderField>,
}

} // verus!
