use vstd::prelude::*;
use crate::buffer::ByteBuffer;
use crate::buffer::copy_range;
use crate::buffer::HIGH_WATER_MARK;
use crate::error::Error;
use crate::options::HttpVersion;
use crate::request::HeaderField;
use crate::request::Response;
use crate::request::fields_view;

verus! {

/// Where a transfer stands between its first status line and the end
/// of its body.
#[derive(Clone, Copy, Debug, PartialEq, Eq, Structural)]
pub enum Phase {
    AwaitingStatusLine,
    ReadingHeaders,
    StreamingBody,
    Complete,
}

/// Whitespace trimmed from header values: space, tab, CR, LF.
pub open spec fn is_ws(b: u8) -> bool {
    b == 32 || b == 9 || b == 13 || b == 10
}

/// `s` without its leading whitespace.
pub open spec fn trim_front(s: Seq<u8>) -> Seq<u8>
    decreases s.len(),
{
    if s.len() > 0 && is_ws(s[0]) {
        trim_front(s.drop_first())
    } else {
        s
    }
}

/// `s` without its trailing whitespace.
pub open spec fn trim_back(s: Seq<u8>) -> Seq<u8>
    decreases s.len(),
{
    if s.len() > 0 && is_ws(s[s.len() - 1]) {
        trim_back(s.drop_last())
    } else {
        s
    }
}

/// `s` without leading or trailing whitespace.
pub open spec fn trimmed(s: Seq<u8>) -> Seq<u8> {
    trim_back(trim_front(s))
}

/// The position of the first colon in `s`, if any.
pub open spec fn find_colon(s: Seq<u8>) -> Option<int>
    decreases s.len(),
{
    if s.len() == 0 {
        None
    } else if s[0] == 58 {
        Some(0)
    } else {
        match find_colon(s.drop_first()) {
            Some(i) => Some(i + 1),
            None => None,
        }
    }
}

/// What `find_colon` finds is the first colon.
pub proof fn lemma_find_colon(s: Seq<u8>)
    ensures
        match find_colon(s) {
            Some(i) => 0 <= i < s.len() && s[i] == 58 && (forall|j: int|
                0 <= j < i ==> s[j] != 58),
            None => forall|j: int| 0 <= j < s.len() ==> s[j] != 58,
        },
    decreases s.len(),
{
    if s.len() > 0 && s[0] != 58 {
        let t = s.drop_first();
        lemma_find_colon(t);
        assert(forall|j: int| 0 <= j < t.len() ==> #[trigger] t[j] == s[j + 1]);
        match find_colon(t) {
            Some(i) => {
                assert(s[i + 1] == t[i]);
                assert forall|j: int| 0 <= j < i + 1 implies s[j] != 58 by {
                    if j > 0 {
                        assert(t[j - 1] != 58);
                    }
                }
            },
            None => {
                assert forall|j: int| 0 <= j < s.len() implies s[j] != 58 by {
                    if j > 0 {
                        assert(t[j - 1] != 58);
                    }
                }
            },
        }
    }
}

/// Is `b` a UTF-8 continuation byte (`10xxxxxx`)?
pub open spec fn is_cont(b: u8) -> bool {
    0x80 <= b <= 0xBF
}

/// The length of the well-formed UTF-8 scalar at the front of `s`,
/// or 0 when the front is malformed: ASCII; two-byte sequences;
/// three-byte sequences excluding overlong forms and surrogates;
/// four-byte sequences up to U+10FFFF.
pub open spec fn utf8_step(s: Seq<u8>) -> int {
    if s.len() >= 1 && s[0] <= 0x7F {
        1
    } else if s.len() >= 2 && 0xC2 <= s[0] <= 0xDF && is_cont(s[1]) {
        2
    } else if s.len() >= 3 && s[0] == 0xE0 && 0xA0 <= s[1] <= 0xBF && is_cont(s[2]) {
        3
    } else if s.len() >= 3 && 0xE1 <= s[0] <= 0xEC && is_cont(s[1]) && is_cont(s[2]) {
        3
    } else if s.len() >= 3 && s[0] == 0xED && 0x80 <= s[1] <= 0x9F && is_cont(s[2]) {
        3
    } else if s.len() >= 3 && 0xEE <= s[0] <= 0xEF && is_cont(s[1]) && is_cont(s[2]) {
        3
    } else if s.len() >= 4 && s[0] == 0xF0 && 0x90 <= s[1] <= 0xBF && is_cont(s[2]) && is_cont(
        s[3],
    ) {
        4
    } else if s.len() >= 4 && 0xF1 <= s[0] <= 0xF3 && is_cont(s[1]) && is_cont(s[2]) && is_cont(
        s[3],
    ) {
        4
    } else if s.len() >= 4 && s[0] == 0xF4 && 0x80 <= s[1] <= 0x8F && is_cont(s[2]) && is_cont(
        s[3],
    ) {
        4
    } else {
        0
    }
}

/// Is `s` entirely well-formed UTF-8?
pub open spec fn is_utf8(s: Seq<u8>) -> bool
    decreases s.len(),
{
    if s.len() == 0 {
        true
    } else {
        utf8_step(s) > 0 && is_utf8(s.skip(utf8_step(s)))
    }
}

/// Check UTF-8 validity, exactly as `is_utf8` describes it.
pub fn is_utf8_bytes(data: &[u8]) -> (r: bool)
    ensures
        r == is_utf8(data@),
{
    let n = data.len();
    proof {
        assert(data@.skip(0) =~= data@);
    }
    let mut i: usize = 0;
    while i < n
        invariant
            i <= n,
            n == data@.len(),
            is_utf8(data@) == is_utf8(data@.skip(i as int)),
        decreases n - i,
    {
        let b0 = data[i];
        let step: usize = if b0 <= 0x7F {
            1
        } else if 0xC2 <= b0 && b0 <= 0xDF && n - i > 1 && 0x80 <= data[i + 1] && data[i + 1]
            <= 0xBF {
            2
        } else if b0 == 0xE0 && n - i > 2 && 0xA0 <= data[i + 1] && data[i + 1] <= 0xBF && 0x80
            <= data[i + 2] && data[i + 2] <= 0xBF {
            3
        } else if 0xE1 <= b0 && b0 <= 0xEC && n - i > 2 && 0x80 <= data[i + 1] && data[i + 1]
            <= 0xBF && 0x80 <= data[i + 2] && data[i + 2] <= 0xBF {
            3
        } else if b0 == 0xED && n - i > 2 && 0x80 <= data[i + 1] && data[i + 1] <= 0x9F && 0x80
            <= data[i + 2] && data[i + 2] <= 0xBF {
            3
        } else if 0xEE <= b0 && b0 <= 0xEF && n - i > 2 && 0x80 <= data[i + 1] && data[i + 1]
            <= 0xBF && 0x80 <= data[i + 2] && data[i + 2] <= 0xBF {
            3
        } else if b0 == 0xF0 && n - i > 3 && 0x90 <= data[i + 1] && data[i + 1] <= 0xBF && 0x80
            <= data[i + 2] && data[i + 2] <= 0xBF && 0x80 <= data[i + 3] && data[i + 3] <= 0xBF {
            4
        } else if 0xF1 <= b0 && b0 <= 0xF3 && n - i > 3 && 0x80 <= data[i + 1] && data[i + 1]
            <= 0xBF && 0x80 <= data[i + 2] && data[i + 2] <= 0xBF && 0x80 <= data[i + 3] && data[i
            + 3] <= 0xBF {
            4
        } else if b0 == 0xF4 && n - i > 3 && 0x80 <= data[i + 1] && data[i + 1] <= 0x8F && 0x80
            <= data[i + 2] && data[i + 2] <= 0xBF && 0x80 <= data[i + 3] && data[i + 3] <= 0xBF {
            4
        } else {
            0
        };
        proof {
            let t = data@.skip(i as int);
            assert(forall|j: int| 0 <= j < t.len() ==> #[trigger] t[j] == data@[i + j]);
            assert(utf8_step(t) == step as int);
            if step > 0 {
                assert(t.skip(step as int) =~= data@.skip(i + step));
            }
        }
        if step == 0 {
            return false;
        }
        i += step;
    }
    proof {
        assert(data@.skip(n as int) =~= Seq::<u8>::empty());
    }
    true
}

/// Does the line open with the protocol marker `HTTP/`?
pub open spec fn starts_with_http(s: Seq<u8>) -> bool {
    s.len() >= 5 && s[0] == 72 && s[1] == 84 && s[2] == 84 && s[3] == 80 && s[4] == 47
}

pub open spec fn is_digit(b: u8) -> bool {
    48 <= b <= 57
}

/// The protocol version named by bytes 5..8 of a status line
/// (`2.0`, `1.1`, `1.0`, `0.9`); anything unrecognized maps to the
/// default version, HTTP/1.1, and is never an error by itself.
pub open spec fn version_of(s: Seq<u8>) -> HttpVersion
    recommends
        s.len() >= 8,
{
    if s[5] == 50 && s[6] == 46 && s[7] == 48 {
        HttpVersion::Http2
    } else if s[5] == 49 && s[6] == 46 && s[7] == 49 {
        HttpVersion::Http11
    } else if s[5] == 49 && s[6] == 46 && s[7] == 48 {
        HttpVersion::Http10
    } else if s[5] == 48 && s[6] == 46 && s[7] == 57 {
        HttpVersion::Http09
    } else {
        HttpVersion::Http11
    }
}

/// A status line is decodable when it is long enough to carry a version
/// and a three-digit status code in the hundreds or above.
pub open spec fn status_line_ok(s: Seq<u8>) -> bool {
    &&& s.len() >= 12
    &&& is_digit(s[9])
    &&& is_digit(s[10])
    &&& is_digit(s[11])
    &&& s[9] != 48
}

/// The three-digit status code at bytes 9..12 of a status line.
pub open spec fn status_of(s: Seq<u8>) -> int
    recommends
        s.len() >= 12,
{
    (s[9] - 48) * 100 + (s[10] - 48) * 10 + (s[11] - 48)
}

/// Decode a status line that opens with the protocol marker: the
/// version (with unrecognized tokens mapping to the default) and the
/// status code; `None` when the line is malformed.
pub open spec fn spec_parse_status(s: Seq<u8>) -> Option<(HttpVersion, u16)> {
    if status_line_ok(s) {
        Some((version_of(s), status_of(s) as u16))
    } else {
        None
    }
}

/// The caller-visible meaning of a transfer: its phase and the
/// response snapshot accumulated so far.
pub struct TransferView {
    pub phase: Phase,
    pub version: HttpVersion,
    pub status: u16,
    pub headers: Seq<(Seq<u8>, Seq<u8>)>,
}

/// One header-section line, applied to a transfer: the new view and
/// whether the line was accepted. A line that is not valid UTF-8 is
/// rejected outright, whatever it holds. Otherwise a protocol-marker
/// line is decoded as a status line wherever it appears; in the
/// header-reading phase a line with a colon is appended to the header
/// collection and the bare CRLF terminator ends the section;
/// everything else is rejected, which fails the transfer.
pub open spec fn spec_header_step(v: TransferView, line: Seq<u8>) -> (TransferView, bool) {
    if !is_utf8(line) {
        (v, false)
    } else if starts_with_http(line) {
        match spec_parse_status(line) {
            Some((ver, code)) => (
                TransferView {
                    phase: Phase::ReadingHeaders,
                    version: ver,
                    status: code,
                    headers: v.headers,
                },
                true,
            ),
            None => (v, false),
        }
    } else if v.phase == Phase::ReadingHeaders {
        match find_colon(line) {
            Some(i) => (
                TransferView {
                    headers: v.headers.push((line.take(i), trimmed(line.skip(i + 1)))),
                    ..v
                },
                true,
            ),
            None => {
                if line =~= seq![13u8, 10u8] {
                    (TransferView { phase: Phase::StreamingBody, ..v }, true)
                } else {
                    (v, false)
                }
            },
        }
    } else {
        (v, false)
    }
}

/// A well-formed status line always parses: the transfer moves to
/// header reading carrying the line's version and status, and an
/// unrecognized version token alone never causes a failure, since it
/// maps to the default version.
pub proof fn lemma_status_line_parses(v: TransferView, line: Seq<u8>)
    requires
        is_utf8(line),
        starts_with_http(line),
        status_line_ok(line),
    ensures
        ({
            let (nv, acc) = spec_header_step(v, line);
            &&& acc
            &&& nv.phase == Phase::ReadingHeaders
            &&& nv.version == version_of(line)
            &&& nv.status == status_of(line) as u16
            &&& nv.headers == v.headers
        }),
{
}

/// Header lines are preserved in receipt order, duplicate names
/// included: two accepted header lines append exactly their two
/// entries, first one first, whatever they contain.
pub proof fn lemma_headers_in_order(
    v: TransferView,
    l1: Seq<u8>,
    l2: Seq<u8>,
    i1: int,
    i2: int,
)
    requires
        v.phase == Phase::ReadingHeaders,
        is_utf8(l1),
        is_utf8(l2),
        !starts_with_http(l1),
        !starts_with_http(l2),
        find_colon(l1) == Some(i1),
        find_colon(l2) == Some(i2),
    ensures
        ({
            let (v1, a1) = spec_header_step(v, l1);
            let (v2, a2) = spec_header_step(v1, l2);
            &&& a1
            &&& a2
            &&& v2.phase == Phase::ReadingHeaders
            &&& v2.headers == v.headers.push((l1.take(i1), trimmed(l1.skip(i1 + 1)))).push(
                (l2.take(i2), trimmed(l2.skip(i2 + 1))),
            )
        }),
{
}

/// Per-transfer state: the parser's phase, the response snapshot, the
/// inbound body buffer, and the outbound body with its read cursor.
/// It is owned by the reactor thread while the transfer is active.
pub struct TransferState {
    pub phase: Phase,
    pub version: HttpVersion,
    pub status: u16,
    pub headers: Vec<HeaderField>,
    pub buffer: ByteBuffer,
    pub body: Vec<u8>,
    pub body_pos: usize,
}

impl View for TransferState {
    type V = TransferView;

    open spec fn view(&self) -> TransferView {
        TransferView {
            phase: self.phase,
            version: self.version,
            status: self.status,
            headers: fields_view(self.headers@),
        }
    }
}

impl TransferState {
    pub open spec fn wf(self) -> bool {
        &&& self.buffer.wf()
        &&& self.body_pos <= self.body@.len()
    }

    /// A fresh transfer for the given outbound body, before any line
    /// of the response has arrived.
    pub fn new(body: Vec<u8>) -> (s: TransferState)
        ensures
            s.wf(),
            s@.phase == Phase::AwaitingStatusLine,
            s@.version == HttpVersion::Http11,
            s@.status == 0u16,
            s@.headers.len() == 0,
            s.buffer.data@.len() == 0,
            s.buffer.unread().len() == 0,
            !s.buffer.paused,
            s.body == body,
            s.body_pos == 0,
    {
        let s = TransferState {
            phase: Phase::AwaitingStatusLine,
            version: HttpVersion::Http11,
            status: 0,
            headers: Vec::new(),
            buffer: ByteBuffer::new(),
            body,
            body_pos: 0,
        };
        proof {
            assert(fields_view(s.headers@) =~= Seq::<(Seq<u8>, Seq<u8>)>::empty());
        }
        s
    }

    /// One raw line of the response's header section, as handed over by
    /// the engine. Returns whether the line was accepted; a rejected
    /// line fails the transfer.
    pub fn header(&mut self, data: &[u8]) -> (accepted: bool)
        requires
            old(self).wf(),
        ensures
            final(self).wf(),
            ({
                let (nv, acc) = spec_header_step(old(self)@, data@);
                final(self)@ == nv && accepted == acc
            }),
            final(self).buffer == old(self).buffer,
            final(self).body == old(self).body,
            final(self).body_pos == old(self).body_pos,
    {
        if !is_utf8_bytes(data) {
            return false;
        }
        if is_status_line(data) {
            match parse_status_line(data) {
                Some((version, status)) => {
                    self.version = version;
                    self.status = status;
                    self.phase = Phase::ReadingHeaders;
                    true
                },
                None => false,
            }
        } else if matches!(self.phase, Phase::ReadingHeaders) {
            let dlen = data.len();
            match find_colon_at(data) {
                Some(i) => {
                    proof {
                        lemma_find_colon(data@);
                        assert(i < dlen);
                    }
                    let name = copy_range(data, 0, i);
                    let value = trim_range(data, i + 1);
                    proof {
                        assert(name@ =~= data@.take(i as int));
                    }
                    self.headers.push(HeaderField { name, value });
                    proof {
                        let entry = (data@.take(i as int), trimmed(data@.skip(i + 1)));
                        assert(fields_view(self.headers@) =~~= fields_view(
                            old(self).headers@,
                        ).push(entry));
                    }
                    true
                },
                None => {
                    if data.len() == 2 && data[0] == 13 && data[1] == 10 {
                        proof {
                            assert(data@ =~= seq![13u8, 10u8]);
                        }
                        self.phase = Phase::StreamingBody;
                        true
                    } else {
                        proof {
                            if data@.len() == 2 {
                                assert(data@ != seq![13u8, 10u8]) by {
                                    if data@ == seq![13u8, 10u8] {
                                        assert(data@[0] == 13u8 && data@[1] == 10u8);
                                    }
                                }
                            }
                        }
                        false
                    }
                },
            }
        } else {
            false
        }
    }

    /// Inbound body bytes from the engine: append them to the body
    /// buffer, pausing delivery once the backlog passes the high-water
    /// mark. Returns how many bytes were consumed (always all).
    pub fn write(&mut self, data: &[u8]) -> (n: usize)
        requires
            old(self).wf(),
            old(self).buffer.data@.len() + data@.len() <= usize::MAX,
        ensures
            final(self).wf(),
            n == data@.len(),
            final(self)@ == old(self)@,
            final(self).buffer.unread() == old(self).buffer.unread() + data@,
            final(self).buffer.paused == (old(self).buffer.paused
                || final(self).buffer.unread().len() > HIGH_WATER_MARK),
            final(self).body == old(self).body,
            final(self).body_pos == old(self).body_pos,
    {
        self.buffer.push(data)
    }

    /// Outbound body bytes for the engine, pulled on demand: hand out
    /// up to `max` bytes from the read cursor. An empty result signals
    /// the end of the body.
    pub fn read(&mut self, max: usize) -> (out: Vec<u8>)
        requires
            old(self).wf(),
        ensures
            final(self).wf(),
            ({
                let remaining = old(self).body@.len() - old(self).body_pos;
                let k = if (max as int) <= remaining { max as int } else { remaining };
                &&& out@ == old(self).body@.subrange(
                    old(self).body_pos as int,
                    old(self).body_pos + k,
                )
                &&& final(self).body_pos == old(self).body_pos + k
            }),
            final(self)@ == old(self)@,
            final(self).buffer == old(self).buffer,
            final(self).body == old(self).body,
    {
        let remaining = self.body.len() - self.body_pos;
        let k = if max < remaining { max } else { remaining };
        let out = copy_range(self.body.as_slice(), self.body_pos, self.body_pos + k);
        self.body_pos = self.body_pos + k;
        out
    }

    /// The engine reported this transfer's descriptor finished: the
    /// transfer reaches its terminal phase.
    pub fn finish(&mut self)
        requires
            old(self).wf(),
        ensures
            final(self).wf(),
            final(self)@.phase == Phase::Complete,
            final(self)@.version == old(self)@.version,
            final(self)@.status == old(self)@.status,
            final(self)@.headers == old(self)@.headers,
            final(self).buffer == old(self).buffer,
            final(self).body == old(self).body,
            final(self).body_pos == old(self).body_pos,
    {
        self.phase = Phase::Complete;
    }

    /// Whether the response snapshot (status, version, headers) is
    /// available: true once the header section has been fully read.
    pub open spec fn spec_headers_done(self) -> bool {
        self.phase == Phase::StreamingBody || self.phase == Phase::Complete
    }

    pub fn headers_done(&self) -> (r: bool)
        ensures
            r == self.spec_headers_done(),
    {
        matches!(self.phase, Phase::StreamingBody | Phase::Complete)
    }
}

/// Does the line open with the protocol marker `HTTP/`?
pub fn is_status_line(data: &[u8]) -> (r: bool)
    ensures
        r == starts_with_http(data@),
{
    data.len() >= 5 && data[0] == 72 && data[1] == 84 && data[2] == 84 && data[3] == 80
        && data[4] == 47
}

/// Decode a status line exactly as `spec_parse_status` describes it.
/// This is the positional decode alone; the state machine checks the
/// whole line for UTF-8 validity before it gets here.
pub fn parse_status_line(data: &[u8]) -> (r: Option<(HttpVersion, u16)>)
    ensures
        r == spec_parse_status(data@),
{
    if data.len() < 12 {
        return None;
    }
    let d1 = data[9];
    let d2 = data[10];
    let d3 = data[11];
    if d1 < 49 || d1 > 57 || d2 < 48 || d2 > 57 || d3 < 48 || d3 > 57 {
        return None;
    }
    let version = if data[5] == 50 && data[6] == 46 && data[7] == 48 {
        HttpVersion::Http2
    } else if data[5] == 49 && data[6] == 46 && data[7] == 49 {
        HttpVersion::Http11
    } else if data[5] == 49 && data[6] == 46 && data[7] == 48 {
        HttpVersion::Http10
    } else if data[5] == 48 && data[6] == 46 && data[7] == 57 {
        HttpVersion::Http09
    } else {
        HttpVersion::Http11
    };
    let status: u16 = (d1 as u16 - 48) * 100 + (d2 as u16 - 48) * 10 + (d3 as u16 - 48);
    Some((version, status))
}

/// Find the first colon, exactly as `find_colon` describes it.
pub fn find_colon_at(data: &[u8]) -> (r: Option<usize>)
    ensures
        match r {
            Some(i) => find_colon(data@) == Some(i as int),
            None => find_colon(data@) is None,
        },
{
    proof {
        lemma_find_colon(data@);
    }
    let mut i: usize = 0;
    while i < data.len()
        invariant
            i <= data@.len(),
            forall|j: int| 0 <= j < i ==> data@[j] != 58,
            match find_colon(data@) {
                Some(k) => 0 <= k < data@.len() && data@[k] == 58 && (forall|j: int|
                    0 <= j < k ==> data@[j] != 58),
                None => forall|j: int| 0 <= j < data@.len() ==> data@[j] != 58,
            },
        decreases data@.len() - i,
    {
        if data[i] == 58 {
            return Some(i);
        }
        i += 1;
    }
    None
}

/// Copy `data[from..]` with surrounding whitespace removed, exactly as
/// `trimmed` describes it.
pub fn trim_range(data: &[u8], from: usize) -> (r: Vec<u8>)
    requires
        from <= data@.len(),
    ensures
        r@ == trimmed(data@.skip(from as int)),
{
    let ghost s = data@.subrange(from as int, data@.len() as int);
    let mut lo: usize = from;
    while lo < data.len() && is_ws_byte(data[lo])
        invariant
            from <= lo <= data@.len(),
            trim_front(s) == trim_front(data@.subrange(lo as int, data@.len() as int)),
        decreases data@.len() - lo,
    {
        proof {
            let t = data@.subrange(lo as int, data@.len() as int);
            assert(t.drop_first() =~= data@.subrange(lo + 1, data@.len() as int));
        }
        lo += 1;
    }
    proof {
        let t = data@.subrange(lo as int, data@.len() as int);
        assert(trim_front(t) == t);
    }
    let mut hi: usize = data.len();
    while hi > lo && is_ws_byte(data[hi - 1])
        invariant
            lo <= hi <= data@.len(),
            trim_back(data@.subrange(lo as int, data@.len() as int)) == trim_back(
                data@.subrange(lo as int, hi as int),
            ),
        decreases hi,
    {
        proof {
            let t = data@.subrange(lo as int, hi as int);
            assert(t.drop_last() =~= data@.subrange(lo as int, hi - 1));
        }
        hi -= 1;
    }
    proof {
        let t = data@.subrange(lo as int, hi as int);
        assert(trim_back(t) == t);
    }
    copy_range(data, lo, hi)
}

fn is_ws_byte(b: u8) -> (r: bool)
    ensures
        r == is_ws(b),
{
    b == 32 || b == 9 || b == 13 || b == 10
}

/// Convert a finished transfer and the engine's verdict into what the
/// caller is owed: the engine's failure passed through unchanged; a
/// successful transfer whose header section never completed reported
/// as a malformed response; otherwise the response snapshot.
pub fn into_response(state: &TransferState, outcome: Result<(), u64>) -> (r: Result<
    Response,
    Error,
>)
    ensures
        match outcome {
            Err(code) => r matches Err(e) && e == Error::TransferEngineError(code),
            Ok(()) => {
                if state.spec_headers_done() {
                    r matches Ok(resp) && resp.version == state@.version && resp.status
                        == state@.status && fields_view(resp.headers@) == state@.headers
                } else {
                    r matches Err(e) && e == Error::MalformedResponse
                }
            },
        },
{
    match outcome {
        Err(code) => Err(Error::TransferEngineError(code)),
        Ok(()) => {
            if state.headers_done() {
                let mut headers: Vec<HeaderField> = Vec::new();
                let mut i: usize = 0;
                while i < state.headers.len()
                    invariant
                        i <= state.headers@.len(),
                        headers@.len() == i,
                        forall|j: int| 0 <= j < i ==> #[trigger] headers@[j]@
                            == state.headers@[j]@,
                    decreases state.headers@.len() - i,
                {
                    let h = &state.headers[i];
                    let name = copy_range(h.name.as_slice(), 0, h.name.len());
                    let value = copy_range(h.value.as_slice(), 0, h.value.len());
                    proof {
                        assert(name@ =~= state.headers@[i as int].name@);
                        assert(value@ =~= state.headers@[i as int].value@);
                    }
                    headers.push(HeaderField { name, value });
                    proof {
                        assert(headers@[i as int]@ == state.headers@[i as int]@);
                    }
                    i += 1;
                }
                proof {
                    assert(fields_view(headers@) =~~= fields_view(state.headers@));
                }
                Ok(Response { version: state.version, status: state.status, headers })
            } else {
                Err(Error::MalformedResponse)
            }
        },
    }
}

} // verus!
