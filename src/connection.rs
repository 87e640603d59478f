use vstd::prelude::*;
use crate::header::{add_header, has_header_spec, HeaderList};
use crate::request::{
    body_type_spec, content_length_spec, parse_request, parse_request_spec, Request, RequestBodyType,
    RequestModel,
};
use crate::response::{response_bytes, Response, ResponseModel};
use crate::response_status_code::ResponseStatusCode;
use crate::rules::rule::Rule;
use crate::server::apply_spec;
use crate::server_config::KeepAliveConfig;
use crate::text::{contains, utf8};

verus! {

/// When a read of one request attempt is done.
#[derive(Debug, Clone, Copy, PartialEq, Eq, Structural)]
pub enum ReadStrategy {
    /// Until the bytes hold CR LF CR LF somewhere.
    UntilDoubleCrlf,
    /// Until at least this many bytes have been read.
    UntilNoBytesRead(usize),
}

pub open spec fn crlfcrlf() -> Seq<u8> {
    seq![13u8, 10u8, 13u8, 10u8]
}

/// The bytes read so far satisfy the strategy.
pub open spec fn strategy_satisfied(buf: Seq<u8>, s: ReadStrategy) -> bool {
    match s {
        ReadStrategy::UntilDoubleCrlf => contains(buf, crlfcrlf()),
        ReadStrategy::UntilNoBytesRead(n) => buf.len() >= n,
    }
}

/// Whether the bytes read so far satisfy the strategy.
pub fn read_is_complete(buf: &[u8], strategy: ReadStrategy) -> (r: bool)
    ensures
        r == strategy_satisfied(buf@, strategy),
{
    match strategy {
        ReadStrategy::UntilDoubleCrlf => {
            let marker: Vec<u8> = vec![13u8, 10u8, 13u8, 10u8];
            assert(marker@ =~= crlfcrlf());
            crate::text::contains_bytes(buf, marker.as_slice())
        },
        ReadStrategy::UntilNoBytesRead(n) => buf.len() >= n,
    }
}

/// Whether a read loop goes on after a chunk.
#[derive(Debug, Clone, Copy, PartialEq, Eq, Structural)]
pub enum ReadStep {
    More,
    Done,
}

/// Takes in one chunk from the transport. Reading stops when the strategy
/// is satisfied, or when the chunk is empty: the peer closed.
pub fn read_step(buf: &mut Vec<u8>, chunk: &[u8], strategy: ReadStrategy) -> (r: ReadStep)
    ensures
        final(buf)@ == old(buf)@ + chunk@,
        (r == ReadStep::Done) == (chunk@.len() == 0 || strategy_satisfied(final(buf)@, strategy)),
{
    crate::bytes::push_all(buf, chunk);
    if chunk.len() == 0 || read_is_complete(buf.as_slice(), strategy) {
        ReadStep::Done
    } else {
        ReadStep::More
    }
}

/// What one read of the transport gave.
#[derive(Debug)]
pub enum ReadResult {
    /// The bytes read; none means the peer closed.
    Bytes(Vec<u8>),
    TimedOut,
    /// The peer reset or aborted the connection.
    Reset,
    /// Another I/O failure.
    Failed,
}

/// A request whose body is still arriving: the request as parsed so far and
/// every byte received for it.
#[derive(Debug)]
pub struct Pending {
    pub request: Request,
    pub raw: Vec<u8>,
}

/// What to do after a read.
#[derive(Debug)]
pub enum ReadDecision {
    /// Close the connection quietly.
    Close,
    /// Drop the connection: an I/O failure.
    Fail,
    /// Answer with an error status, then close.
    ClientError(Option<Request>, ResponseStatusCode),
    /// The request is complete: dispatch it.
    Dispatch(Request),
    /// Read more of the body.
    ReadMore(Pending),
}

/// How far a parsed request's body has arrived.
#[derive(Debug, Clone, Copy, PartialEq, Eq, Structural)]
pub enum Framing {
    Complete,
    Incomplete,
    OverRead,
}

/// A body longer than its declared length is an over-read; otherwise the
/// parser's completeness decides.
pub open spec fn framing_spec(m: RequestModel, complete: bool) -> Framing {
    if body_type_spec(m.2) == RequestBodyType::ContentLength && m.3.len() > content_length_spec(m.2)->0 {
        Framing::OverRead
    } else if complete {
        Framing::Complete
    } else {
        Framing::Incomplete
    }
}

/// The decision for the bytes received for one request, `prev` being the
/// request parsed from an earlier part of them.
pub open spec fn outcome_spec(raw: Seq<u8>, prev: Option<RequestModel>, d: ReadDecision) -> bool {
    match parse_request_spec(raw) {
        None => d matches ReadDecision::ClientError(q, s) && s == ResponseStatusCode::BadRequest
            && match (q, prev) {
                (Some(x), Some(y)) => x.model() == y,
                (None, None) => true,
                _ => false,
            },
        Some((m, c)) => match framing_spec(m, c) {
            Framing::Complete => d matches ReadDecision::Dispatch(q) && q.model() == m,
            Framing::OverRead => d matches ReadDecision::ClientError(Some(q), s) && s == ResponseStatusCode::BadRequest
                && q.model() == m,
            Framing::Incomplete => d matches ReadDecision::ReadMore(p) && p.request.model() == m && p.raw@ == raw,
        },
    }
}

/// The connection must close after this response: the caller forces it,
/// keep-alive is off, the budget is spent, or the client asked.
pub open spec fn should_close_spec(
    force: bool,
    persistent: bool,
    served: u8,
    max_requests: u8,
    request_headers: Option<HeaderList>,
) -> bool {
    force || !persistent || served + 1 == max_requests || (request_headers matches Some(hs)
        && has_header_spec(hs, utf8("Connection"@), Some(utf8("close"@))))
}

/// The response that is sent: with the rules applied when it answers a
/// request.
pub open spec fn sent_spec(rules: Seq<Rule>, request: Option<&Request>, m: ResponseModel) -> ResponseModel {
    match request {
        Some(q) => apply_spec(rules, utf8(q.url@), q.method, m, 0).0,
        None => m,
    }
}

/// A response announcing that the connection closes.
pub open spec fn with_close(m: ResponseModel) -> ResponseModel {
    (m.0, m.1, add_header(m.2, utf8("Connection"@), utf8("close"@)), m.3)
}

/// The per-connection controller: reads are decided by `on_read`,
/// responses are finished by `send_response`, which counts them against
/// the keep-alive budget.
#[derive(Debug)]
pub struct ConnectionMachine {
    persistent: bool,
    max_requests: u8,
    served: u8,
}

impl ConnectionMachine {
    pub closed spec fn persistent_spec(&self) -> bool {
        self.persistent
    }

    pub closed spec fn max_requests_spec(&self) -> u8 {
        self.max_requests
    }

    pub closed spec fn served_spec(&self) -> u8 {
        self.served
    }

    /// A controller for a new connection under the keep-alive policy.
    pub fn new(keep_alive: KeepAliveConfig) -> (r: Self)
        ensures
            r.served_spec() == 0,
            r.persistent_spec() == (keep_alive is On),
            r.max_requests_spec() == match keep_alive {
                KeepAliveConfig::On { max_requests, .. } => max_requests,
                KeepAliveConfig::Off => 0u8,
            },
    {
        match keep_alive {
            KeepAliveConfig::On { max_requests, .. } => ConnectionMachine { persistent: true, max_requests, served: 0 },
            KeepAliveConfig::Off => ConnectionMachine { persistent: false, max_requests: 0, served: 0 },
        }
    }

    /// How many responses have been sent.
    pub fn served_count(&self) -> (r: u8)
        ensures
            r == self.served_spec(),
    {
        self.served
    }

    /// How to read next: up to the end of the headers for a new request;
    /// for a body with a declared length, the bytes still missing; for a
    /// chunked body, up to the next CR LF CR LF.
    pub fn read_strategy(pending: &Option<Pending>) -> (r: ReadStrategy)
        ensures
            pending is None ==> r == ReadStrategy::UntilDoubleCrlf,
            pending matches Some(p) ==> (body_type_spec(p.request.headers@) == RequestBodyType::ContentLength
                ==> r == ReadStrategy::UntilNoBytesRead(
                if p.request.body@.len() < content_length_spec(p.request.headers@)->0 {
                    (content_length_spec(p.request.headers@)->0 - p.request.body@.len()) as usize
                } else {
                    0
                },
            )),
            pending matches Some(p) ==> (body_type_spec(p.request.headers@) != RequestBodyType::ContentLength
                ==> r == ReadStrategy::UntilDoubleCrlf),
    {
        match pending {
            None => ReadStrategy::UntilDoubleCrlf,
            Some(p) => match p.request.content_length() {
                Some(n) => {
                    let have = p.request.body.len();
                    ReadStrategy::UntilNoBytesRead(if have < n { n - have } else { 0 })
                },
                None => ReadStrategy::UntilDoubleCrlf,
            },
        }
    }

    /// The decision for the bytes received for one request.
    fn decide(raw: Vec<u8>, prev: Option<Request>) -> (r: ReadDecision)
        ensures
            outcome_spec(
                raw@,
                match prev {
                    Some(q) => Some(q.model()),
                    None => None,
                },
                r,
            ),
    {
        match parse_request(raw.as_slice()) {
            Err(()) => ReadDecision::ClientError(prev, ResponseStatusCode::BadRequest),
            Ok((request, complete)) => {
                let over = match request.content_length() {
                    Some(n) => request.body.len() > n,
                    None => false,
                };
                if over {
                    ReadDecision::ClientError(Some(request), ResponseStatusCode::BadRequest)
                } else if complete {
                    ReadDecision::Dispatch(request)
                } else {
                    ReadDecision::ReadMore(Pending { request, raw })
                }
            },
        }
    }

    /// Decides what follows a read. For a new request: nothing read closes
    /// the connection, a timeout is 408, a reset closes, another failure
    /// drops it; the bytes are parsed otherwise. For a request whose body is
    /// arriving, the new bytes are added to those received and all are
    /// parsed again; a close or a timeout before the body is complete is
    /// 400, a reset closes quietly. A malformed request or a body longer than declared is 400.
    pub fn on_read(pending: Option<Pending>, result: ReadResult) -> (r: ReadDecision)
        ensures
            pending is None ==> match result {
                ReadResult::Bytes(b) => if b@.len() == 0 {
                    r is Close
                } else {
                    outcome_spec(b@, None, r)
                },
                ReadResult::TimedOut => r matches ReadDecision::ClientError(None, s) && s == ResponseStatusCode::RequestTimeout,
                ReadResult::Reset => r is Close,
                ReadResult::Failed => r is Fail,
            },
            pending matches Some(p) ==> match result {
                ReadResult::Bytes(b) => if b@.len() == 0 {
                    r matches ReadDecision::ClientError(Some(q), s) && s == ResponseStatusCode::BadRequest
                        && q.model() == p.request.model()
                } else {
                    outcome_spec(p.raw@ + b@, Some(p.request.model()), r)
                },
                ReadResult::TimedOut => r matches ReadDecision::ClientError(Some(q), s)
                    && s == ResponseStatusCode::BadRequest && q.model() == p.request.model(),
                ReadResult::Reset => r is Close,
                ReadResult::Failed => r is Fail,
            },
    {
        match pending {
            None => match result {
                ReadResult::Bytes(b) => {
                    if b.len() == 0 {
                        ReadDecision::Close
                    } else {
                        Self::decide(b, None)
                    }
                },
                ReadResult::TimedOut => ReadDecision::ClientError(None, ResponseStatusCode::RequestTimeout),
                ReadResult::Reset => ReadDecision::Close,
                ReadResult::Failed => ReadDecision::Fail,
            },
            Some(p) => match result {
                ReadResult::Bytes(b) => {
                    if b.len() == 0 {
                        ReadDecision::ClientError(Some(p.request), ResponseStatusCode::BadRequest)
                    } else {
                        let mut raw = p.raw;
                        crate::bytes::push_all(&mut raw, b.as_slice());
                        Self::decide(raw, Some(p.request))
                    }
                },
                ReadResult::TimedOut => ReadDecision::ClientError(Some(p.request), ResponseStatusCode::BadRequest),
                ReadResult::Reset => ReadDecision::Close,
                ReadResult::Failed => ReadDecision::Fail,
            },
        }
    }

    /// Finishes a response whose rules have run: announces the close when
    /// the connection is to close, serializes it and counts it. Returns the
    /// bytes to write and whether to close after them.
    pub fn emit(&mut self, request: Option<&Request>, response: Response, force_close: bool) -> (r: (Vec<u8>, bool))
        ensures
            r.1 == should_close_spec(
                force_close,
                old(self).persistent_spec(),
                old(self).served_spec(),
                old(self).max_requests_spec(),
                match request {
                    Some(q) => Some(q.headers@),
                    None => None,
                },
            ),
            r.0@ == response_bytes(if r.1 { with_close(response@) } else { response@ }),
            final(self).served_spec() == if old(self).served_spec() < 255 { (old(self).served_spec() + 1) as u8 } else { 255u8 },
            final(self).persistent_spec() == old(self).persistent_spec(),
            final(self).max_requests_spec() == old(self).max_requests_spec(),
    {
        let asked = match request {
            Some(q) => q.has_header("Connection", Some("close")),
            None => false,
        };
        let budget_spent = self.served as u16 + 1 == self.max_requests as u16;
        let close = force_close || !self.persistent || budget_spent || asked;
        let mut response = response;
        if close {
            response.set_header("Connection", "close");
        }
        let bytes = response.as_bytes();
        if self.served < 255 {
            self.served = self.served + 1;
        }
        (bytes, close)
    }

    /// Applies the rules to the response of `request` (when there is one),
    /// then finishes it as `emit` does.
    pub fn send_response(&mut self, request: Option<&Request>, response: Response, rules: &Vec<Rule>, force_close: bool) -> (r: (Vec<u8>, bool))
        ensures
            r.1 == should_close_spec(
                force_close,
                old(self).persistent_spec(),
                old(self).served_spec(),
                old(self).max_requests_spec(),
                match request {
                    Some(q) => Some(q.headers@),
                    None => None,
                },
            ),
            r.0@ == response_bytes(
                if r.1 {
                    with_close(sent_spec(rules@, request, response@))
                } else {
                    sent_spec(rules@, request, response@)
                },
            ),
            final(self).served_spec() == if old(self).served_spec() < 255 { (old(self).served_spec() + 1) as u8 } else { 255u8 },
    {
        let response = match request {
            Some(q) => crate::server::apply_rules(rules, q, response),
            None => response,
        };
        self.emit(request, response, force_close)
    }
}

} // verus!
