use liters::http::{
    execute, http_request, http_to_storage, response_headers, BodyChunk, BodyRead,
    ChannelRequestBody, ForeignBody, HttpError, HttpHeader, Producer, ProducerAction, ProducerEvent,
    Received,
};
use liters::io::{IoError, IoErrorKind};
use liters::storage::StorageError;

fn transport(m: &str) -> HttpError {
    HttpError::Transport { message: m.into() }
}

fn protocol(m: &str) -> HttpError {
    HttpError::Protocol { message: m.into() }
}

#[test]
fn host_errors_become_storage_errors() {
    assert!(matches!(http_to_storage(transport("reset")), StorageError::Unavailable(m) if m == "reset"));
    assert!(matches!(http_to_storage(protocol("frame")), StorageError::Other(m) if m == "frame"));
    assert_eq!(transport("x").to_string(), "http transport: x");
    assert_eq!(protocol("x").to_string(), "http protocol: x");
    assert_eq!(
        HttpError::unexpected("boom").to_string(),
        "http transport: http client raised an unexpected error: boom"
    );
}

#[test]
fn requests_and_responses_keep_their_headers() {
    let r = http_request("PUT", "https://h/x", vec![("a".into(), "1".into()), ("b".into(), "2".into())], true);
    assert_eq!((r.method.as_str(), r.url.as_str(), r.long_lived), ("PUT", "https://h/x", true));
    let got: Vec<_> = r.headers.iter().map(|h| (h.name.as_str(), h.value.as_str())).collect();
    assert_eq!(got, [("a", "1"), ("b", "2")]);
    let h = HttpHeader { name: "n".into(), value: "v".into() };
    assert_eq!(response_headers(vec![h]), [("n".to_string(), "v".to_string())]);
}

#[test]
fn a_cancel_outranks_what_the_host_returned() {
    execute(Ok(()), false, true).unwrap();
    assert!(matches!(execute(Ok(()), true, true), Err(StorageError::Cancelled)));
    assert!(matches!(execute(Err(transport("reset")), true, false), Err(StorageError::Cancelled)));
    assert!(matches!(execute(Err(transport("reset")), false, false), Err(StorageError::Unavailable(m)) if m == "reset"));
    assert!(matches!(
        execute(Ok(()), false, false),
        Err(StorageError::Unavailable(m)) if m == "http client panicked reading response head"
    ));
}

#[test]
fn request_bodies_are_cut_to_the_size_asked_for() {
    let mut b = ChannelRequestBody::new();
    assert_eq!(b.read_leftover(4), None);
    assert_eq!(b.read(4, Received::Chunk(vec![1, 2, 3, 4, 5, 6, 7])).unwrap(), [1, 2, 3, 4]);
    assert_eq!(b.read_leftover(2).unwrap(), [5, 6]);
    assert_eq!(b.read_leftover(2).unwrap(), [7]);
    assert_eq!(b.read_leftover(2), None);
    assert_eq!(b.read(2, Received::Chunk(vec![8, 9])).unwrap(), [8, 9]);
    assert!(b.read(2, Received::Closed).unwrap().is_empty());
    let broken = IoError::new(IoErrorKind::Other, "disk".into());
    assert!(matches!(b.read(2, Received::Failed(broken)), Err(HttpError::Transport { message }) if message == "disk"));
}

#[test]
fn a_request_body_arrives_whole() {
    let sent: [&[u8]; 3] = [&[1, 2, 3, 4, 5], &[6], &[7, 8]];
    for max in 1..=6 {
        let mut b = ChannelRequestBody::new();
        let mut channel = sent.iter();
        let mut got = Vec::new();
        loop {
            let part = match b.read_leftover(max) {
                Some(part) => part,
                None => {
                    let received = match channel.next() {
                        Some(chunk) => Received::Chunk(chunk.to_vec()),
                        None => Received::Closed,
                    };
                    b.read(max, received).unwrap()
                }
            };
            assert!(part.len() <= max as usize);
            if part.is_empty() {
                break;
            }
            got.extend(part);
        }
        assert_eq!(got, [1, 2, 3, 4, 5, 6, 7, 8]);
    }
}

#[test]
fn response_bodies_are_cut_to_the_buffer() {
    let mut b = ForeignBody::new(false);
    let mut buf = [0u8; 3];
    assert_eq!(b.read_leftover(&mut buf), None);
    let data = |v: &[u8]| Ok(BodyChunk::Data { bytes: v.to_vec() });
    assert_eq!(b.read(&mut buf, data(&[1, 2, 3, 4, 5])).unwrap(), BodyRead::Bytes(3));
    assert_eq!(buf, [1, 2, 3]);
    assert_eq!(b.read_leftover(&mut buf), Some(BodyRead::Bytes(2)));
    // Only the front is overwritten.
    assert_eq!(buf, [4, 5, 3]);
    assert_eq!(b.read_leftover(&mut buf), None);
    assert_eq!(b.read(&mut buf, Ok(BodyChunk::Idle)).unwrap(), BodyRead::Idle);
    assert_eq!(b.read(&mut buf, Ok(BodyChunk::Eof)).unwrap(), BodyRead::Eof);
    let e = b.read(&mut buf, Err(protocol("bad"))).unwrap_err();
    assert_eq!((e.kind, e.message.as_str()), (IoErrorKind::InvalidData, "bad"));
    let e = b.read(&mut buf, Err(transport("cut"))).unwrap_err();
    assert_eq!((e.kind, e.message.as_str()), (IoErrorKind::Other, "cut"));
}

#[test]
fn empty_chunks_idle_on_long_lived_requests_only() {
    let mut buf = [0u8; 3];
    let empty = || Ok(BodyChunk::Data { bytes: Vec::new() });
    assert_eq!(ForeignBody::new(true).read(&mut buf, empty()).unwrap(), BodyRead::Idle);
    let e = ForeignBody::new(false).read(&mut buf, empty()).unwrap_err();
    assert_eq!(e.message, "http client returned an empty body chunk");
}

#[test]
fn the_producer_feeds_the_body_and_stops() {
    let go = ProducerEvent::Checked { stop: false, cancelled: false };
    let mut p = Producer::new();
    assert_eq!(p.produce(ProducerEvent::Start), ProducerAction::Check);
    assert_eq!(p.produce(go), ProducerAction::Read);
    assert_eq!(p.produce(ProducerEvent::Read(10)), ProducerAction::Check);
    assert_eq!(p.produce(go), ProducerAction::TrySend);
    // A full channel is tried again, after another look at the flags.
    assert_eq!(p.produce(ProducerEvent::Full), ProducerAction::Pause);
    assert_eq!(p.produce(ProducerEvent::Paused), ProducerAction::Check);
    assert_eq!(p.produce(go), ProducerAction::TrySend);
    assert_eq!(p.produce(ProducerEvent::Sent), ProducerAction::Check);
    assert_eq!(p.produce(go), ProducerAction::Read);
    let mut eof = p;
    assert_eq!(eof.produce(ProducerEvent::Read(0)), ProducerAction::End);
    // An error is the last message.
    assert_eq!(p.produce(ProducerEvent::ReadFailed), ProducerAction::Check);
    assert_eq!(p.produce(go), ProducerAction::TrySend);
    let mut dropped = p;
    assert_eq!(dropped.produce(ProducerEvent::Disconnected), ProducerAction::End);
    assert_eq!(p.produce(ProducerEvent::Sent), ProducerAction::End);
    assert_eq!(p.produce(ProducerEvent::Start), ProducerAction::Unexpected);
    for (stop, cancelled) in [(true, false), (false, true)] {
        let mut p = Producer::new();
        p.produce(ProducerEvent::Start);
        assert_eq!(p.produce(ProducerEvent::Checked { stop, cancelled }), ProducerAction::End);
    }
    // With a message in hand only a stop ends it.
    let mut p = Producer::new();
    p.produce(ProducerEvent::Start);
    p.produce(go);
    p.produce(ProducerEvent::Read(1));
    let mut stopped = p;
    assert_eq!(
        stopped.produce(ProducerEvent::Checked { stop: true, cancelled: false }),
        ProducerAction::End
    );
    assert_eq!(
        p.produce(ProducerEvent::Checked { stop: false, cancelled: true }),
        ProducerAction::TrySend
    );
}
