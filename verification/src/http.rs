//! Host-provided HTTP transport: what crosses the boundary between a host's
//! HTTP client and the storage backend, and how bodies are cut and joined on
//! the way.

use vstd::prelude::*;
use vstd::string::*;

use crate::io::{IoError, IoErrorKind};
#[allow(unused_imports)]
use crate::io::IoErrorView;
use crate::storage::StorageError;
#[allow(unused_imports)]
use crate::storage::StorageErrorView;

verus! {

/// One HTTP header.
#[derive(Debug, Clone)]
pub struct HttpHeader {
    pub name: String,
    pub value: String,
}

/// A request for the host's client to execute. `headers` are semantic only;
/// the host adds its own transport headers. `url` is absolute and may be
/// `https`.
#[derive(Debug, Clone)]
pub struct HttpRequest {
    pub method: String,
    pub url: String,
    pub headers: Vec<HttpHeader>,
    /// `true` only for a long-lived follow: the host keeps the response open
    /// and returns [`BodyChunk::Idle`] on its read-timeout tick instead of
    /// failing. For `false` the host *fails* a stalled read.
    pub long_lived: bool,
}

/// One read from a response body.
#[derive(Debug, Clone)]
pub enum BodyChunk {
    /// Some decoded body bytes (must be non-empty).
    Data { bytes: Vec<u8> },
    /// No bytes right now, connection alive — an idle tick on a `long_lived`
    /// body. Only valid for `long_lived` requests.
    Idle,
    /// The body is complete.
    Eof,
}

/// Errors the host's transport can report.
#[derive(Debug, Clone)]
pub enum HttpError {
    /// A network/transport failure (connect, reset, timeout). Retryable.
    Transport { message: String },
    /// A protocol/format failure (bad framing).
    Protocol { message: String },
}

impl HttpError {
    /// The message of the error.
    pub fn to_string(&self) -> (s: String)
        ensures
            s@ == match self {
                HttpError::Transport { message } => "http transport: "@ + message@,
                HttpError::Protocol { message } => "http protocol: "@ + message@,
            },
    {
        match self {
            HttpError::Transport { message } => {
                String::from_str("http transport: ").concat(message.as_str())
            },
            HttpError::Protocol { message } => {
                String::from_str("http protocol: ").concat(message.as_str())
            },
        }
    }

    /// Anything that a host raises and that is not one of these errors.
    pub fn unexpected(cause: &str) -> (e: HttpError)
        ensures
            e matches HttpError::Transport { message } && message@
                == "http client raised an unexpected error: "@ + cause@,
    {
        HttpError::Transport {
            message: String::from_str("http client raised an unexpected error: ").concat(cause),
        }
    }
}

/// What the storage backend makes of a host's error.
pub open spec fn mapped_http_error(e: HttpError) -> StorageError {
    match e {
        HttpError::Transport { message } => StorageError::Unavailable(message),
        HttpError::Protocol { message } => StorageError::Other(message),
    }
}

pub fn http_to_storage(e: HttpError) -> (r: StorageError)
    ensures
        r == mapped_http_error(e),
{
    match e {
        HttpError::Transport { message } => StorageError::Unavailable(message),
        HttpError::Protocol { message } => StorageError::Other(message),
    }
}

/// The headers of a request, as the host reads them.
pub open spec fn headers_sent(headers: Seq<(String, String)>) -> Seq<HttpHeader> {
    headers.map_values(|h: (String, String)| HttpHeader { name: h.0, value: h.1 })
}

/// The headers of a response, as the storage backend reads them.
pub open spec fn headers_read(headers: Seq<HttpHeader>) -> Seq<(String, String)> {
    headers.map_values(|h: HttpHeader| (h.name, h.value))
}

/// No header is lost, added, moved or changed on its way to the host or back.
pub proof fn lemma_headers_kept(headers: Seq<(String, String)>, i: int)
    requires
        0 <= i < headers.len(),
    ensures
        headers_sent(headers).len() == headers.len(),
        headers_sent(headers)[i].name == headers[i].0,
        headers_sent(headers)[i].value == headers[i].1,
        headers_read(headers_sent(headers)) == headers,
{
    assert(headers_read(headers_sent(headers)) =~= headers);
}

/// A transport failure is worth a retry and a protocol failure is not; both
/// keep the host's message.
pub proof fn lemma_host_failures(e: HttpError)
    ensures
        crate::error::ErrorView::Storage(mapped_http_error(e)@).transient() <==> e is Transport,
        mapped_http_error(e)@.text() == match e {
            HttpError::Transport { message } => message@,
            HttpError::Protocol { message } => message@,
        },
        !(mapped_http_error(e) is Cancelled),
{
}

/// The request for the host's client.
pub fn http_request(
    method: &str,
    url: &str,
    headers: Vec<(String, String)>,
    long_lived: bool,
) -> (r: HttpRequest)
    ensures
        r.method@ == method@,
        r.url@ == url@,
        r.long_lived == long_lived,
        r.headers@ == headers_sent(headers@),
{
    let mut list: Vec<HttpHeader> = Vec::new();
    for h in it: headers
        invariant
            it.seq() == headers@,
            list@.len() == it.index(),
            forall|i: int|
                0 <= i < list@.len() ==> (#[trigger] list@[i]) == (HttpHeader {
                    name: headers@[i].0,
                    value: headers@[i].1,
                }),
    {
        list.push(HttpHeader { name: h.0, value: h.1 });
    }
    assert(list@ =~= headers_sent(headers@));
    HttpRequest {
        method: String::from_str(method),
        url: String::from_str(url),
        headers: list,
        long_lived,
    }
}

/// The headers of the host's response, as the storage backend reads them.
pub fn response_headers(headers: Vec<HttpHeader>) -> (r: Vec<(String, String)>)
    ensures
        r@ == headers_read(headers@),
{
    let mut list: Vec<(String, String)> = Vec::new();
    for h in it: headers
        invariant
            it.seq() == headers@,
            list@.len() == it.index(),
            forall|i: int|
                0 <= i < list@.len() ==> (#[trigger] list@[i]) == (
                    headers@[i].name,
                    headers@[i].value,
                ),
    {
        list.push((h.name, h.value));
    }
    assert(list@ =~= headers_read(headers@));
    list
}

/// Whether a request that the host executed may come to `r`.
pub open spec fn executes_to(
    executed: core::result::Result<(), HttpError>,
    cancelled: bool,
    head_read: bool,
    r: core::result::Result<(), StorageError>,
) -> bool {
    if cancelled {
        r == Err::<(), StorageError>(StorageError::Cancelled)
    } else {
        match executed {
            Err(e) => r == Err::<(), StorageError>(mapped_http_error(e)),
            Ok(()) => if !head_read {
                r matches Err(StorageError::Unavailable(m)) && m@
                    == "http client panicked reading response head"@
            } else {
                r is Ok
            },
        }
    }
}

/// A request succeeds exactly when it was not cancelled, the host executed it
/// and its response has a head. It reports a cancellation exactly when it was
/// cancelled, whatever else went wrong, and else a failure that is worth a
/// retry unless the host broke the protocol.
pub proof fn lemma_request_outcomes(
    executed: core::result::Result<(), HttpError>,
    cancelled: bool,
    head_read: bool,
    r: core::result::Result<(), StorageError>,
)
    requires
        executes_to(executed, cancelled, head_read, r),
    ensures
        r is Ok <==> !cancelled && executed is Ok && head_read,
        r == Err::<(), StorageError>(StorageError::Cancelled) <==> cancelled,
        r matches Err(e) ==> (e is Other <==> !cancelled && (executed matches Err(h) && h is Protocol)),
        r matches Err(e) ==> e is Cancelled || e is Other || e is Unavailable,
        !cancelled ==> (executed matches Err(h) ==> r is Err && r->Err_0@.text() == match h {
            HttpError::Transport { message } => message@,
            HttpError::Protocol { message } => message@,
        }),
{
}

/// What a request that the host executed comes to: a cancellation that landed
/// while the host held the request, whatever the interrupted call returned;
/// else the host's error, else a host that failed to report the response's
/// head.
pub fn execute(
    executed: core::result::Result<(), HttpError>,
    cancelled: bool,
    head_read: bool,
) -> (r: core::result::Result<(), StorageError>)
    ensures
        executes_to(executed, cancelled, head_read, r),
{
    if cancelled {
        return Err(StorageError::Cancelled);
    }
    match executed {
        Err(e) => {
            return Err(http_to_storage(e));
        },
        Ok(()) => {},
    }
    if !head_read {
        return Err(
            StorageError::Unavailable(
                String::from_str("http client panicked reading response head"),
            ),
        );
    }
    Ok(())
}

/// Where the producer of a request body stands.
#[derive(Debug, Clone, Copy, PartialEq, Eq, Structural)]
pub enum ProducerStage {
    Checking,
    Reading,
    /// A message is in hand; the flags are looked at before each attempt.
    CheckingToSend,
    Sending,
    Pausing,
    Ended,
}

/// The producer that reads a request body and feeds it to the host through a
/// bounded channel. It watches for a stop and a cancellation, so that an early
/// rejection by the server (the host stops reading the body) or a cancel
/// cannot wedge it on a full channel.
#[derive(Debug, Clone, Copy, PartialEq, Eq, Structural)]
pub struct Producer {
    pub stage: ProducerStage,
    /// Whether the message in hand is an error, the last one to send.
    pub failed: bool,
}

/// What the last action came to.
#[derive(Debug, Clone, Copy, PartialEq, Eq, Structural)]
pub enum ProducerEvent {
    Start,
    /// The flags.
    Checked { stop: bool, cancelled: bool },
    /// So many bytes were read, zero at the end of the body.
    Read(usize),
    ReadFailed,
    Sent,
    /// The channel is full.
    Full,
    /// The host dropped its end of the channel.
    Disconnected,
    Paused,
}

/// What to do next.
#[derive(Debug, Clone, Copy, PartialEq, Eq, Structural)]
pub enum ProducerAction {
    /// Look at the flags.
    Check,
    /// Read the next chunk of the body; the chunk, or the failure, is the
    /// message in hand.
    Read,
    /// Try to put the message in hand on the channel.
    TrySend,
    /// Wait a little (5ms).
    Pause,
    /// Close the channel.
    End,
    /// The event does not answer the last action; nothing changed.
    Unexpected,
}

/// One step of the producer.
pub open spec fn producer_step(p: Producer, e: ProducerEvent) -> (Producer, ProducerAction) {
    let ended = (Producer { stage: ProducerStage::Ended, ..p }, ProducerAction::End);
    match (p.stage, e) {
        (ProducerStage::Checking, ProducerEvent::Start) => (p, ProducerAction::Check),
        (ProducerStage::Checking, ProducerEvent::Checked { stop, cancelled }) => if stop || cancelled {
            ended
        } else {
            (Producer { stage: ProducerStage::Reading, ..p }, ProducerAction::Read)
        },
        (ProducerStage::Reading, ProducerEvent::Read(n)) => if n == 0 {
            ended
        } else {
            (
                Producer { stage: ProducerStage::CheckingToSend, failed: false },
                ProducerAction::Check,
            )
        },
        (ProducerStage::Reading, ProducerEvent::ReadFailed) => (
            Producer { stage: ProducerStage::CheckingToSend, failed: true },
            ProducerAction::Check,
        ),
        (ProducerStage::CheckingToSend, ProducerEvent::Checked { stop, .. }) => if stop {
            ended
        } else {
            (Producer { stage: ProducerStage::Sending, ..p }, ProducerAction::TrySend)
        },
        (ProducerStage::Sending, ProducerEvent::Sent) => if p.failed {
            ended
        } else {
            (Producer { stage: ProducerStage::Checking, ..p }, ProducerAction::Check)
        },
        (ProducerStage::Sending, ProducerEvent::Full) => (
            Producer { stage: ProducerStage::Pausing, ..p },
            ProducerAction::Pause,
        ),
        (ProducerStage::Sending, ProducerEvent::Disconnected) => ended,
        (ProducerStage::Pausing, ProducerEvent::Paused) => (
            Producer { stage: ProducerStage::CheckingToSend, ..p },
            ProducerAction::Check,
        ),
        _ => (p, ProducerAction::Unexpected),
    }
}

impl Producer {
    pub fn new() -> (p: Producer)
        ensures
            p == (Producer { stage: ProducerStage::Checking, failed: false }),
    {
        Producer { stage: ProducerStage::Checking, failed: false }
    }

    fn end(&mut self) -> (a: ProducerAction)
        ensures
            *final(self) == (Producer { stage: ProducerStage::Ended, ..*old(self) }),
            a == ProducerAction::End,
    {
        self.stage = ProducerStage::Ended;
        ProducerAction::End
    }

    /// One step of the producer.
    pub fn produce(&mut self, event: ProducerEvent) -> (a: ProducerAction)
        ensures
            (*final(self), a) == producer_step(*old(self), event),
    {
        match (self.stage, event) {
            (ProducerStage::Checking, ProducerEvent::Start) => ProducerAction::Check,
            (ProducerStage::Checking, ProducerEvent::Checked { stop, cancelled }) => {
                if stop || cancelled {
                    return self.end();
                }
                self.stage = ProducerStage::Reading;
                ProducerAction::Read
            },
            (ProducerStage::Reading, ProducerEvent::Read(n)) => {
                if n == 0 {
                    return self.end();
                }
                self.stage = ProducerStage::CheckingToSend;
                self.failed = false;
                ProducerAction::Check
            },
            (ProducerStage::Reading, ProducerEvent::ReadFailed) => {
                self.stage = ProducerStage::CheckingToSend;
                self.failed = true;
                ProducerAction::Check
            },
            (ProducerStage::CheckingToSend, ProducerEvent::Checked { stop, .. }) => {
                if stop {
                    return self.end();
                }
                self.stage = ProducerStage::Sending;
                ProducerAction::TrySend
            },
            (ProducerStage::Sending, ProducerEvent::Sent) => {
                if self.failed {
                    return self.end();
                }
                self.stage = ProducerStage::Checking;
                ProducerAction::Check
            },
            (ProducerStage::Sending, ProducerEvent::Full) => {
                self.stage = ProducerStage::Pausing;
                ProducerAction::Pause
            },
            (ProducerStage::Sending, ProducerEvent::Disconnected) => self.end(),
            (ProducerStage::Pausing, ProducerEvent::Paused) => {
                self.stage = ProducerStage::CheckingToSend;
                ProducerAction::Check
            },
            _ => ProducerAction::Unexpected,
        }
    }
}

/// A stopped producer ends at its next look at the flags: between two looks
/// it makes one read, or one attempt to send and one pause, at most.
pub proof fn lemma_producer_stops(p: Producer, cancelled: bool)
    ensures
        p.stage == ProducerStage::Checking || p.stage == ProducerStage::CheckingToSend
            ==> producer_step(p, ProducerEvent::Checked { stop: true, cancelled }).1
            == ProducerAction::End,
        p.stage == ProducerStage::Checking ==> producer_step(
            p,
            ProducerEvent::Checked { stop: false, cancelled: true },
        ).1 == ProducerAction::End,
        p.stage == ProducerStage::Sending ==> producer_step(p, ProducerEvent::Full).0.stage
            == ProducerStage::Pausing && producer_step(
            producer_step(p, ProducerEvent::Full).0,
            ProducerEvent::Paused,
        ).1 == ProducerAction::Check,
{
}

/// The producer after several events, and what it asked for at each.
pub open spec fn producer_run(p: Producer, events: Seq<ProducerEvent>) -> (
    Producer,
    Seq<ProducerAction>,
)
    decreases events.len(),
{
    if events.len() == 0 {
        (p, Seq::empty())
    } else {
        let (q, actions) = producer_run(p, events.drop_last());
        let (r, a) = producer_step(q, events.last());
        (r, actions.push(a))
    }
}

proof fn lemma_producer_one_more(p: Producer, events: Seq<ProducerEvent>, e: ProducerEvent)
    ensures
        producer_run(p, events.push(e)) == ({
            let (q, actions) = producer_run(p, events);
            let (r, a) = producer_step(q, e);
            (r, actions.push(a))
        }),
{
    assert(events.push(e).drop_last() =~= events);
}

/// The events of one chunk of `n` bytes, or of a failed read, on its way into
/// the channel, which was full `tries` times before it took it. A cancellation
/// does not keep a message that is in hand from being sent.
pub open spec fn chunk_events(read: ProducerEvent, tries: nat, cancelled: bool) -> Seq<ProducerEvent> {
    attempt_events(read, tries, cancelled).push(ProducerEvent::Sent)
}

/// The events of a chunk up to the attempt to send it behind `tries` others.
pub open spec fn attempt_events(read: ProducerEvent, tries: nat, cancelled: bool) -> Seq<ProducerEvent>
    decreases tries,
{
    let go = ProducerEvent::Checked { stop: false, cancelled };
    if tries == 0 {
        seq![ProducerEvent::Checked { stop: false, cancelled: false }, read, go]
    } else {
        attempt_events(read, (tries - 1) as nat, cancelled) + seq![
            ProducerEvent::Full,
            ProducerEvent::Paused,
            go,
        ]
    }
}

/// What is asked for up to the attempt to send a chunk behind `tries` others.
pub open spec fn attempt_actions(tries: nat) -> Seq<ProducerAction>
    decreases tries,
{
    if tries == 0 {
        seq![ProducerAction::Read, ProducerAction::Check, ProducerAction::TrySend]
    } else {
        attempt_actions((tries - 1) as nat) + seq![
            ProducerAction::Pause,
            ProducerAction::Check,
            ProducerAction::TrySend,
        ]
    }
}

proof fn lemma_attempts(p: Producer, read: ProducerEvent, tries: nat, cancelled: bool)
    requires
        p.stage == ProducerStage::Checking,
        (read matches ProducerEvent::Read(n) && n > 0) || read == ProducerEvent::ReadFailed,
    ensures
        producer_run(p, attempt_events(read, tries, cancelled)) == (
            Producer {
                stage: ProducerStage::Sending,
                failed: read == ProducerEvent::ReadFailed,
            },
            attempt_actions(tries),
        ),
    decreases tries,
{
    let go = ProducerEvent::Checked { stop: false, cancelled };
    if tries == 0 {
        let none = Seq::<ProducerEvent>::empty();
        let first = ProducerEvent::Checked { stop: false, cancelled: false };
        lemma_producer_one_more(p, none, first);
        lemma_producer_one_more(p, none.push(first), read);
        lemma_producer_one_more(p, none.push(first).push(read), go);
        assert(none.push(first).push(read).push(go) =~= seq![first, read, go]);
        assert(producer_run(p, seq![first, read, go]).1 =~= attempt_actions(0));
    } else {
        lemma_attempts(p, read, (tries - 1) as nat, cancelled);
        let before = attempt_events(read, (tries - 1) as nat, cancelled);
        lemma_producer_one_more(p, before, ProducerEvent::Full);
        lemma_producer_one_more(p, before.push(ProducerEvent::Full), ProducerEvent::Paused);
        let paused = before.push(ProducerEvent::Full).push(ProducerEvent::Paused);
        lemma_producer_one_more(p, paused, go);
        assert(paused.push(go) =~= attempt_events(read, tries, cancelled));
        assert(producer_run(p, paused.push(go)).1 =~= attempt_actions(tries));
    }
}

/// What the producer does with each chunk: it reads it once and tries to send
/// it until the channel takes it, with a pause behind each try that finds the
/// channel full; then it goes on to the next chunk. A failed read is sent the
/// same way, and is the last message.
pub proof fn lemma_producer_sends(p: Producer, read: ProducerEvent, tries: nat, cancelled: bool)
    requires
        p.stage == ProducerStage::Checking,
        (read matches ProducerEvent::Read(n) && n > 0) || read == ProducerEvent::ReadFailed,
    ensures
        producer_run(p, chunk_events(read, tries, cancelled)) == if read
            == ProducerEvent::ReadFailed {
            (
                Producer { stage: ProducerStage::Ended, failed: true },
                attempt_actions(tries).push(ProducerAction::End),
            )
        } else {
            (
                Producer { stage: ProducerStage::Checking, failed: false },
                attempt_actions(tries).push(ProducerAction::Check),
            )
        },
{
    lemma_attempts(p, read, tries, cancelled);
    lemma_producer_one_more(p, attempt_events(read, tries, cancelled), ProducerEvent::Sent);
}

/// How the producer ends: at the end of the body, when the host dropped its
/// end of the channel, at a stop, and at a cancellation before the next read.
/// It first looks at the flags, it does nothing more once it has ended, and an
/// event that answers nothing changes nothing.
pub proof fn lemma_producer_ends(p: Producer, e: ProducerEvent)
    ensures
        p.stage == ProducerStage::Checking ==> producer_step(p, ProducerEvent::Start) == (
            p,
            ProducerAction::Check,
        ),
        producer_step(p, e).1 == ProducerAction::End <==> match p.stage {
            ProducerStage::Checking => e matches ProducerEvent::Checked { stop, cancelled } && (stop
                || cancelled),
            ProducerStage::Reading => e == ProducerEvent::Read(0),
            ProducerStage::CheckingToSend => e matches ProducerEvent::Checked { stop, .. } && stop,
            ProducerStage::Sending => e == ProducerEvent::Disconnected || (e == ProducerEvent::Sent
                && p.failed),
            ProducerStage::Pausing => false,
            ProducerStage::Ended => false,
        },
        producer_step(p, e).1 == ProducerAction::End ==> producer_step(p, e).0.stage
            == ProducerStage::Ended,
        p.stage == ProducerStage::Ended ==> producer_step(p, e).1 == ProducerAction::Unexpected,
        producer_step(p, e).1 == ProducerAction::Unexpected ==> producer_step(p, e).0 == p,
{
}

/// What the producer's channel delivers.
#[derive(Debug)]
pub enum Received {
    Chunk(Vec<u8>),
    /// Reading the body failed.
    Failed(IoError),
    /// The producer is done.
    Closed,
}

/// The mathematical counterpart of [`Received`]: a failure is its message.
#[verifier::ext_equal]
pub enum ReceivedView {
    Chunk(Seq<u8>),
    Failed(Seq<char>),
    Closed,
}

impl View for Received {
    type V = ReceivedView;

    open spec fn view(&self) -> ReceivedView {
        match self {
            Received::Chunk(bytes) => ReceivedView::Chunk(bytes@),
            Received::Failed(e) => ReceivedView::Failed(e@.message),
            Received::Closed => ReceivedView::Closed,
        }
    }
}

/// Feeds the host's reads of a request body from chunks of another size. A
/// partial read leaves the remainder for the next one.
#[derive(Debug)]
pub struct ChannelRequestBody {
    pub leftover: Vec<u8>,
}

/// The first `max` of `all`, and the rest.
pub open spec fn cut(all: Seq<u8>, max: int) -> (Seq<u8>, Seq<u8>) {
    if all.len() <= max {
        (all, Seq::empty())
    } else {
        (all.take(max), all.skip(max))
    }
}

/// What a read of up to `max` bytes comes to, and what it leaves over, where
/// nothing was left over before.
pub open spec fn read_received(max: int, received: ReceivedView) -> (
    core::result::Result<Seq<u8>, Seq<char>>,
    Seq<u8>,
) {
    match received {
        ReceivedView::Chunk(bytes) => (Ok(cut(bytes, max).0), cut(bytes, max).1),
        ReceivedView::Failed(message) => (Err(message), Seq::empty()),
        ReceivedView::Closed => (Ok(Seq::empty()), Seq::empty()),
    }
}

impl ChannelRequestBody {
    pub fn new() -> (b: ChannelRequestBody)
        ensures
            b.leftover@ == Seq::<u8>::empty(),
    {
        ChannelRequestBody { leftover: Vec::new() }
    }

    /// Up to `max` bytes of what an earlier read left over; `None` when
    /// nothing is, and the channel must be asked.
    pub fn read_leftover(&mut self, max: u32) -> (r: Option<Vec<u8>>)
        ensures
            old(self).leftover@.len() == 0 ==> r is None && final(self).leftover@
                == old(self).leftover@,
            old(self).leftover@.len() > 0 ==> (r matches Some(v) && (v@, final(self).leftover@) == cut(
                old(self).leftover@,
                max as int,
            )),
    {
        if self.leftover.len() == 0 {
            return None;
        }
        let max: usize = max as usize;
        if self.leftover.len() <= max {
            let mut out: Vec<u8> = Vec::new();
            std::mem::swap(&mut out, &mut self.leftover);
            Some(out)
        } else {
            let rest = self.leftover.split_off(max);
            let mut out: Vec<u8> = rest;
            std::mem::swap(&mut out, &mut self.leftover);
            assert(out@ =~= old(self).leftover@.take(max as int));
            assert(self.leftover@ =~= old(self).leftover@.skip(max as int));
            Some(out)
        }
    }

    /// Up to `max` bytes of what the channel delivered. An empty result is the
    /// end of the body.
    pub fn read(&mut self, max: u32, received: Received) -> (r: core::result::Result<Vec<u8>, HttpError>)
        requires
            old(self).leftover@.len() == 0,
        ensures
            final(self).leftover@ == read_received(max as int, received@).1,
            match read_received(max as int, received@).0 {
                Ok(bytes) => r matches Ok(v) && v@ == bytes,
                Err(m) => r matches Err(HttpError::Transport { message }) && message@ == m,
            },
    {
        match received {
            Received::Chunk(bytes) => {
                let max: usize = max as usize;
                if bytes.len() <= max {
                    Ok(bytes)
                } else {
                    let mut out = bytes;
                    let rest = out.split_off(max);
                    assert(out@ =~= bytes@.take(max as int));
                    assert(rest@ =~= bytes@.skip(max as int));
                    self.leftover = rest;
                    Ok(out)
                }
            },
            Received::Failed(e) => Err(HttpError::Transport { message: e.message }),
            Received::Closed => Ok(Vec::new()),
        }
    }
}

/// Cutting loses and adds nothing: what is handed out and what is left over
/// make up what there was, in order, and no more than asked for is handed out.
pub proof fn lemma_cut_keeps_all(all: Seq<u8>, max: int)
    requires
        0 <= max,
    ensures
        cut(all, max).0 + cut(all, max).1 == all,
        cut(all, max).0.len() <= max,
        max > 0 && all.len() > 0 ==> cut(all, max).0.len() > 0,
{
    assert(cut(all, max).0 + cut(all, max).1 =~= all);
}

/// A request body on its way to the host: what an earlier read left over, the
/// chunks in the channel, and the failure behind them, if the body did not end
/// well. The channel is closed behind that.
pub struct BodyView {
    pub leftover: Seq<u8>,
    pub chunks: Seq<Seq<u8>>,
    pub failure: Option<Seq<char>>,
}

impl BodyView {
    /// No chunk is empty.
    pub open spec fn wf(self) -> bool {
        forall|i: int| 0 <= i < self.chunks.len() ==> (#[trigger] self.chunks[i]).len() > 0
    }

    /// The bytes that are still to come.
    pub open spec fn rest(self) -> Seq<u8> {
        self.leftover + self.chunks.flatten()
    }
}

/// One read of a request body by the host: from what is left over, else from
/// the channel.
pub open spec fn body_read(b: BodyView, max: int) -> (
    BodyView,
    core::result::Result<Seq<u8>, Seq<char>>,
) {
    if b.leftover.len() > 0 {
        (BodyView { leftover: cut(b.leftover, max).1, ..b }, Ok(cut(b.leftover, max).0))
    } else if b.chunks.len() > 0 {
        let (r, leftover) = read_received(max, ReceivedView::Chunk(b.chunks[0]));
        (BodyView { leftover, chunks: b.chunks.skip(1), ..b }, r)
    } else {
        match b.failure {
            Some(message) => {
                let (r, leftover) = read_received(max, ReceivedView::Failed(message));
                (BodyView { leftover, failure: None, ..b }, r)
            },
            None => {
                let (r, leftover) = read_received(max, ReceivedView::Closed);
                (BodyView { leftover, ..b }, r)
            },
        }
    }
}

/// Reads of these sizes, one after the other.
pub open spec fn body_reads(b: BodyView, sizes: Seq<u32>) -> (
    BodyView,
    Seq<core::result::Result<Seq<u8>, Seq<char>>>,
)
    decreases sizes.len(),
{
    if sizes.len() == 0 {
        (b, Seq::empty())
    } else {
        let (b1, results) = body_reads(b, sizes.drop_last());
        let (b2, r) = body_read(b1, sizes.last() as int);
        (b2, results.push(r))
    }
}

/// The bytes that the reads handed out.
pub open spec fn handed_out(results: Seq<core::result::Result<Seq<u8>, Seq<char>>>) -> Seq<u8>
    decreases results.len(),
{
    if results.len() == 0 {
        Seq::empty()
    } else {
        match results.last() {
            Ok(bytes) => handed_out(results.drop_last()) + bytes,
            Err(_) => handed_out(results.drop_last()),
        }
    }
}

/// The host gets the body that was sent. Whatever sizes it reads in, each read
/// gives at most what was asked for; what the reads gave so far, followed by
/// what is still to come, is what was sent, byte for byte and in order; and a
/// read without bytes, or the failure, comes only once all bytes are out. A
/// read without bytes is the end: no failure is held back behind it. The
/// failure comes with its own message, and once.
pub proof fn lemma_body_arrives(b: BodyView, sizes: Seq<u32>)
    requires
        b.wf(),
        b.leftover.len() == 0,
        forall|i: int| 0 <= i < sizes.len() ==> #[trigger] sizes[i] > 0,
    ensures
        ({
            let (b2, results) = body_reads(b, sizes);
            &&& results.len() == sizes.len()
            &&& handed_out(results) + b2.rest() == b.chunks.flatten()
            &&& forall|i: int|
                0 <= i < sizes.len() ==> (#[trigger] results[i] matches Ok(bytes) ==> bytes.len()
                    <= sizes[i])
            &&& forall|i: int|
                0 <= i < sizes.len() && #[trigger] results[i] == Ok::<Seq<u8>, Seq<char>>(
                    Seq::empty(),
                ) ==> handed_out(results.take(i)) == b.chunks.flatten() && (b.failure is None
                    || exists|k: int|
                    0 <= k < i && #[trigger] results[k] == Err::<Seq<u8>, Seq<char>>(
                        b.failure.unwrap(),
                    ))
            &&& forall|i: int|
                0 <= i < sizes.len() ==> (#[trigger] results[i] matches Err(m) ==> b.failure == Some(
                    m,
                ) && handed_out(results.take(i)) == b.chunks.flatten())
            &&& forall|i: int, j: int|
                0 <= i < j < sizes.len() && (#[trigger] results[i] is Err || results[i] == Ok::<
                    Seq<u8>,
                    Seq<char>,
                >(Seq::empty())) ==> #[trigger] results[j] == Ok::<Seq<u8>, Seq<char>>(Seq::empty())
        }),
{
    lemma_reads(b, sizes);
}

/// One read: what it gives and what is then to come is what was to come.
proof fn lemma_one_read(b: BodyView, max: int)
    requires
        b.wf(),
        max > 0,
    ensures
        ({
            let (b2, r) = body_read(b, max);
            &&& b2.wf()
            &&& (r matches Ok(bytes) ==> bytes + b2.rest() == b.rest() && bytes.len() <= max
                && b2.failure == b.failure)
            &&& (r == Ok::<Seq<u8>, Seq<char>>(Seq::empty()) <==> b.rest().len() == 0 && b.failure is None)
            &&& (r matches Err(m) ==> b.rest().len() == 0 && b.failure == Some(m) && b2.failure is None
                && b2.rest() == b.rest())
        }),
{
    let (b2, r) = body_read(b, max);
    if b.leftover.len() > 0 {
        lemma_cut_keeps_all(b.leftover, max);
        assert(cut(b.leftover, max).0 + (cut(b.leftover, max).1 + b.chunks.flatten()) =~= b.leftover
            + b.chunks.flatten());
    } else if b.chunks.len() > 0 {
        let chunk = b.chunks[0];
        let others = b.chunks.skip(1);
        lemma_cut_keeps_all(chunk, max);
        assert(b.chunks.drop_first() =~= others);
        assert(b.chunks.flatten() == chunk + others.flatten());
        assert(cut(chunk, max).0 + (cut(chunk, max).1 + others.flatten()) =~= chunk
            + others.flatten());
        assert(b.rest() =~= chunk + others.flatten());
        assert forall|i: int| 0 <= i < others.len() implies (#[trigger] others[i]).len() > 0 by {
            assert(others[i] == b.chunks[i + 1]);
        }
    } else {
        assert(b.chunks.flatten() =~= Seq::<u8>::empty());
        assert(Seq::<u8>::empty() + b2.rest() =~= b.rest());
    }
}

proof fn lemma_reads(b: BodyView, sizes: Seq<u32>)
    requires
        b.wf(),
        b.leftover.len() == 0,
        forall|i: int| 0 <= i < sizes.len() ==> #[trigger] sizes[i] > 0,
    ensures
        ({
            let (b2, results) = body_reads(b, sizes);
            let whole = b.chunks.flatten();
            &&& b2.wf()
            &&& results.len() == sizes.len()
            &&& handed_out(results) + b2.rest() == whole
            &&& (b2.failure is None || b2.failure == b.failure)
            &&& (b2.failure is None && b.failure is Some ==> exists|k: int|
                0 <= k < results.len() && #[trigger] results[k] == Err::<Seq<u8>, Seq<char>>(
                    b.failure.unwrap(),
                ))
            &&& forall|i: int|
                0 <= i < sizes.len() ==> (#[trigger] results[i] matches Ok(bytes) ==> bytes.len()
                    <= sizes[i])
            &&& forall|i: int|
                0 <= i < sizes.len() && #[trigger] results[i] == Ok::<Seq<u8>, Seq<char>>(
                    Seq::empty(),
                ) ==> handed_out(results.take(i)) == whole && (b.failure is None || exists|k: int|
                    0 <= k < i && #[trigger] results[k] == Err::<Seq<u8>, Seq<char>>(
                        b.failure.unwrap(),
                    ))
            &&& forall|i: int|
                0 <= i < sizes.len() ==> (#[trigger] results[i] matches Err(m) ==> b.failure == Some(
                    m,
                ) && handed_out(results.take(i)) == whole)
            &&& forall|i: int|
                0 <= i < sizes.len() && (#[trigger] results[i] is Err || results[i] == Ok::<
                    Seq<u8>,
                    Seq<char>,
                >(Seq::empty())) ==> b2.rest().len() == 0 && b2.failure is None
            &&& forall|i: int, j: int|
                0 <= i < j < sizes.len() && (#[trigger] results[i] is Err || results[i] == Ok::<
                    Seq<u8>,
                    Seq<char>,
                >(Seq::empty())) ==> #[trigger] results[j] == Ok::<Seq<u8>, Seq<char>>(Seq::empty())
        }),
    decreases sizes.len(),
{
    let whole = b.chunks.flatten();
    if sizes.len() == 0 {
        assert(Seq::<u8>::empty() + b.rest() =~= whole);
    } else {
        let front = sizes.drop_last();
        assert forall|i: int| 0 <= i < front.len() implies #[trigger] front[i] > 0 by {
            assert(front[i] == sizes[i]);
        }
        lemma_reads(b, front);
        let (b1, before) = body_reads(b, front);
        let (b2, r) = body_read(b1, sizes.last() as int);
        let results = before.push(r);
        assert(sizes[sizes.len() - 1] == sizes.last());
        lemma_one_read(b1, sizes.last() as int);
        assert(results.drop_last() =~= before);
        assert(results.last() == r);
        match r {
            Ok(bytes) => {
                assert((handed_out(before) + bytes) + b2.rest() =~= handed_out(before) + (bytes
                    + b2.rest()));
            },
            Err(_) => {},
        }
        let n = before.len() as int;
        assert(results.take(n) =~= before);
        assert forall|i: int| 0 <= i < n implies results.take(i) =~= before.take(i)
            && results[i] == before[i] && sizes[i] == front[i] by {}
        if b1.rest().len() == 0 {
            assert(handed_out(before) =~= whole);
        }
        if b1.failure is None && b.failure is Some {
            let k = choose|k: int|
                0 <= k < before.len() && #[trigger] before[k] == Err::<Seq<u8>, Seq<char>>(
                    b.failure.unwrap(),
                );
            assert(results[k] == before[k]);
        }
        if r is Err {
            assert(results[n] == r);
        }
        assert forall|i: int|
            0 <= i < sizes.len() && #[trigger] results[i] == Ok::<Seq<u8>, Seq<char>>(
                Seq::empty(),
            ) implies handed_out(results.take(i)) == whole && (b.failure is None || exists|k: int|
            0 <= k < i && #[trigger] results[k] == Err::<Seq<u8>, Seq<char>>(
                b.failure.unwrap(),
            )) by {
            if i < n {
                assert(before[i] == results[i]);
                assert(results.take(i) =~= before.take(i));
                if b.failure is Some {
                    let k = choose|k: int|
                        0 <= k < i && #[trigger] before[k] == Err::<Seq<u8>, Seq<char>>(
                            b.failure.unwrap(),
                        );
                    assert(results[k] == before[k]);
                }
            }
        }
    }
}

/// What a read of a response body came to.
#[derive(Debug, Clone, Copy, PartialEq, Eq, Structural)]
pub enum BodyRead {
    /// So many bytes are in the buffer.
    Bytes(usize),
    /// No bytes right now, connection alive.
    Idle,
    /// The body is complete.
    Eof,
}

/// Feeds reads of a response body from the host's chunks. A partial read
/// leaves the remainder for the next one.
#[derive(Debug)]
pub struct ForeignBody {
    pub leftover: Vec<u8>,
    /// Whether the request is a long-lived one, for which an idle tick is an
    /// answer.
    pub long_lived: bool,
}

/// The message for a chunk without bytes on a request that cannot idle.
pub open spec fn empty_chunk_view() -> IoErrorView {
    IoErrorView {
        kind: IoErrorKind::UnexpectedEof,
        message: "http client returned an empty body chunk"@,
    }
}

/// `buf` with the first of `all`, as many as fit, over its front.
pub open spec fn filled(buf: Seq<u8>, all: Seq<u8>) -> Seq<u8> {
    let part = cut(all, buf.len() as int).0;
    part + buf.skip(part.len() as int)
}

/// Copies the first bytes of `src` to the front of `buf`, as many as fit.
fn fill(buf: &mut [u8], src: &Vec<u8>) -> (n: usize)
    ensures
        n == cut(src@, old(buf)@.len() as int).0.len(),
        final(buf)@ == filled(old(buf)@, src@),
{
    let len: usize = buf.len();
    let n: usize = if src.len() <= len {
        src.len()
    } else {
        len
    };
    let mut i: usize = 0;
    while i < n
        invariant
            i <= n <= src@.len(),
            n <= len == buf@.len() == old(buf)@.len(),
            forall|j: int| 0 <= j < i ==> buf@[j] == src@[j],
            forall|j: int| i <= j < len ==> buf@[j] == old(buf)@[j],
        decreases n - i,
    {
        buf[i] = src[i];
        i = i + 1;
    }
    assert(buf@ =~= filled(old(buf)@, src@));
    n
}

/// What a read into `buf` makes of what an earlier read left over: its answer,
/// the buffer and what is left over then.
pub open spec fn leftover_read(leftover: Seq<u8>, buf: Seq<u8>) -> (
    Option<BodyRead>,
    Seq<u8>,
    Seq<u8>,
) {
    if leftover.len() == 0 {
        (None, buf, leftover)
    } else {
        let parts = cut(leftover, buf.len() as int);
        (Some(BodyRead::Bytes(parts.0.len() as usize)), filled(buf, leftover), parts.1)
    }
}

/// What a read into `buf`, where nothing was left over, makes of what the host
/// delivered: its answer, the buffer and what is left over then.
pub open spec fn chunk_read(
    long_lived: bool,
    buf: Seq<u8>,
    chunk: core::result::Result<BodyChunk, HttpError>,
) -> (core::result::Result<BodyRead, IoErrorView>, Seq<u8>, Seq<u8>) {
    let none = Seq::<u8>::empty();
    match chunk {
        Ok(BodyChunk::Data { bytes }) => if bytes@.len() > 0 {
            let parts = cut(bytes@, buf.len() as int);
            (Ok(BodyRead::Bytes(parts.0.len() as usize)), filled(buf, bytes@), parts.1)
        } else if long_lived {
            (Ok(BodyRead::Idle), buf, none)
        } else {
            (Err(empty_chunk_view()), buf, none)
        },
        Ok(BodyChunk::Idle) => (Ok(BodyRead::Idle), buf, none),
        Ok(BodyChunk::Eof) => (Ok(BodyRead::Eof), buf, none),
        Err(HttpError::Protocol { message }) => (
            Err(IoErrorView { kind: IoErrorKind::InvalidData, message: message@ }),
            buf,
            none,
        ),
        Err(HttpError::Transport { message }) => (
            Err(IoErrorView { kind: IoErrorKind::Other, message: message@ }),
            buf,
            none,
        ),
    }
}

/// The bytes of a response arrive in order. A read of bytes, be they left over
/// or just delivered, puts as many of them as fit at the front of the buffer
/// and says how many; they and what is left over make up what there was, and
/// the rest of the buffer is as it was. A buffer with room gets at least one.
pub proof fn lemma_response_arrives(
    long_lived: bool,
    buf: Seq<u8>,
    bytes: Vec<u8>,
    left: Seq<u8>,
)
    requires
        buf.len() <= usize::MAX,
        bytes@.len() > 0,
        left.len() > 0,
    ensures
        ({
            let (r, buf2, left2) = chunk_read(long_lived, buf, Ok(BodyChunk::Data { bytes }));
            &&& r matches Ok(BodyRead::Bytes(n))
            &&& n <= buf.len() && n <= bytes@.len()
            &&& n == buf.len() || n == bytes@.len()
            &&& buf2.take(n as int) + left2 == bytes@
            &&& buf2.skip(n as int) == buf.skip(n as int)
            &&& buf2.len() == buf.len()
        }),
        ({
            let (r, buf2, left2) = leftover_read(left, buf);
            &&& r matches Some(BodyRead::Bytes(n))
            &&& n <= buf.len() && n <= left.len()
            &&& n == buf.len() || n == left.len()
            &&& buf2.take(n as int) + left2 == left
            &&& buf2.skip(n as int) == buf.skip(n as int)
            &&& buf2.len() == buf.len()
        }),
        leftover_read(Seq::empty(), buf) == (None::<BodyRead>, buf, Seq::<u8>::empty()),
{
    lemma_fill_keeps_all(buf, bytes@);
    lemma_fill_keeps_all(buf, left);
}

proof fn lemma_fill_keeps_all(buf: Seq<u8>, all: Seq<u8>)
    ensures
        ({
            let (part, rest) = cut(all, buf.len() as int);
            let n = part.len() as int;
            &&& n <= buf.len() && n <= all.len()
            &&& n == buf.len() || n == all.len()
            &&& filled(buf, all).take(n) + rest == all
            &&& filled(buf, all).skip(n) == buf.skip(n)
            &&& filled(buf, all).len() == buf.len()
        }),
{
    let (part, rest) = cut(all, buf.len() as int);
    let n = part.len() as int;
    assert(filled(buf, all).take(n) =~= part);
    assert(part + rest =~= all);
    assert(filled(buf, all).skip(n) =~= buf.skip(n));
}

/// Without bytes the buffer stays as it was. The end of the body is the host's
/// word alone; an idle tick is the host's word or, on a long-lived request, a
/// chunk without bytes; and a failure keeps its message, and its kind when the
/// protocol was broken.
pub proof fn lemma_response_without_bytes(
    long_lived: bool,
    buf: Seq<u8>,
    chunk: core::result::Result<BodyChunk, HttpError>,
)
    ensures
        ({
            let (r, buf2, left2) = chunk_read(long_lived, buf, chunk);
            let empty = chunk matches Ok(BodyChunk::Data { bytes }) && bytes@.len() == 0;
            &&& !(r matches Ok(BodyRead::Bytes(_))) ==> buf2 == buf && left2.len() == 0
            &&& r == Ok::<BodyRead, IoErrorView>(BodyRead::Eof) <==> chunk is Ok && chunk->Ok_0 is Eof
            &&& r == Ok::<BodyRead, IoErrorView>(BodyRead::Idle) <==> (chunk is Ok && chunk->Ok_0 is Idle)
                || (empty && long_lived)
            &&& r is Err <==> chunk is Err || (empty && !long_lived)
            &&& chunk matches Err(HttpError::Protocol { message }) ==> r
                == Err::<BodyRead, IoErrorView>(
                IoErrorView { kind: IoErrorKind::InvalidData, message: message@ },
            )
            &&& chunk matches Err(HttpError::Transport { message }) ==> r
                == Err::<BodyRead, IoErrorView>(
                IoErrorView { kind: IoErrorKind::Other, message: message@ },
            )
            &&& empty && !long_lived ==> (r matches Err(e) && e.kind == IoErrorKind::UnexpectedEof)
        }),
{
}

impl ForeignBody {
    pub fn new(long_lived: bool) -> (b: ForeignBody)
        ensures
            b.leftover@ == Seq::<u8>::empty(),
            b.long_lived == long_lived,
    {
        ForeignBody { leftover: Vec::new(), long_lived }
    }

    /// Fills `buf` from what an earlier read left over; `None` when nothing
    /// is, and the host must be asked for no more than `buf` holds.
    pub fn read_leftover(&mut self, buf: &mut [u8]) -> (r: Option<BodyRead>)
        ensures
            final(self).long_lived == old(self).long_lived,
            (r, final(buf)@, final(self).leftover@) == leftover_read(
                old(self).leftover@,
                old(buf)@,
            ),
    {
        if self.leftover.len() == 0 {
            return None;
        }
        let n: usize = fill(buf, &self.leftover);
        let rest = self.leftover.split_off(n);
        self.leftover = rest;
        assert(self.leftover@ =~= cut(old(self).leftover@, old(buf)@.len() as int).1);
        Some(BodyRead::Bytes(n))
    }

    /// Fills `buf` from what the host delivered. A chunk without bytes counts
    /// as an idle tick on a long-lived request only; on any other it is an
    /// error, not a wait on a stream that may be dead. A host's protocol error
    /// keeps its kind.
    pub fn read(&mut self, buf: &mut [u8], chunk: core::result::Result<BodyChunk, HttpError>) -> (r:
        core::result::Result<BodyRead, IoError>)
        requires
            old(self).leftover@.len() == 0,
        ensures
            final(self).long_lived == old(self).long_lived,
            ({
                let (outcome, buf2, left) = chunk_read(old(self).long_lived, old(buf)@, chunk);
                &&& match outcome {
                    Ok(read) => r == Ok::<BodyRead, IoError>(read),
                    Err(v) => r matches Err(e) && e@ == v,
                }
                &&& final(buf)@ == buf2
                &&& final(self).leftover@ == left
            }),
    {
        match chunk {
            Ok(BodyChunk::Data { bytes }) => {
                if bytes.len() == 0 {
                    if self.long_lived {
                        return Ok(BodyRead::Idle);
                    }
                    return Err(IoError::unexpected_eof("http client returned an empty body chunk"));
                }
                let n: usize = fill(buf, &bytes);
                let mut rest = bytes;
                self.leftover = rest.split_off(n);
                assert(self.leftover@ =~= cut(bytes@, old(buf)@.len() as int).1);
                Ok(BodyRead::Bytes(n))
            },
            Ok(BodyChunk::Idle) => Ok(BodyRead::Idle),
            Ok(BodyChunk::Eof) => Ok(BodyRead::Eof),
            Err(HttpError::Protocol { message }) => Err(
                IoError::new(IoErrorKind::InvalidData, message),
            ),
            Err(HttpError::Transport { message }) => Err(IoError::new(IoErrorKind::Other, message)),
        }
    }
}

} // verus!
