use std::io::Read;

use flate2::read::GzDecoder;
use rumpelpod::client::PodClient;
use rumpelpod::failure::Failure;
use rumpelpod::upload::body_chunk;
use rumpelpod::upload::chunk_to_send;
use rumpelpod::upload::end_of_body;
use rumpelpod::upload::last_step;
use rumpelpod::upload::packed_step;
use rumpelpod::upload::produced;
use rumpelpod::upload::producer_end;
use rumpelpod::upload::sending;
use rumpelpod::upload::upload_result;
use rumpelpod::upload::written;
use rumpelpod::upload::Answer;
use rumpelpod::upload::ArchiveBody;
use rumpelpod::upload::BlockingResponse;
use rumpelpod::upload::BodyStep;
use rumpelpod::upload::BrokenPipe;
use rumpelpod::upload::CHUNKS_IN_FLIGHT;
use rumpelpod::upload::CHUNK_BYTES;
use rumpelpod::upload::FinishStep;
use rumpelpod::upload::Produced;
use rumpelpod::upload::ReadStep;
use rumpelpod::upload::Sending;

/// Bytes that do not compress well.
fn noise(n: usize) -> Vec<u8> {
    let mut state: u32 = 0x2545_f491;
    let mut bytes = Vec::new();
    for _ in 0..n {
        state ^= state << 13;
        state ^= state >> 17;
        state ^= state << 5;
        bytes.push((state >> 24) as u8);
    }
    bytes
}

fn gunzip(bytes: &[u8]) -> Vec<u8> {
    let mut contents = Vec::new();
    GzDecoder::new(bytes).read_to_end(&mut contents).unwrap();
    contents
}

#[test]
fn limits_of_the_pipe_are_small() {
    assert_eq!(CHUNK_BYTES, 64 * 1024);
    assert_eq!(CHUNKS_IN_FLIGHT, 2);
}

#[test]
fn writes_arrive_whole_in_bounded_chunks() {
    let data = noise(2 * CHUNK_BYTES + 5);
    let mut rest: &[u8] = &data;
    let mut sent = Vec::new();
    let mut sizes = Vec::new();
    while let Some(chunk) = chunk_to_send(rest) {
        let n = written(rest, Sending::Taken).unwrap();
        assert_eq!(n, chunk.len());
        sizes.push(n);
        sent.extend(chunk);
        rest = &rest[n..];
    }
    assert_eq!(sizes, [CHUNK_BYTES, CHUNK_BYTES, 5]);
    assert_eq!(sent, data);
}

#[test]
fn writes_of_nothing_send_nothing() {
    assert_eq!(chunk_to_send(&[]), None);
    assert_eq!(written(&[], Sending::Closed), Ok(0));
}

#[test]
fn broken_pipes_are_told_apart() {
    assert_eq!(written(b"x", Sending::Cancelled), Err(BrokenPipe::Cancelled));
    assert_eq!(written(b"x", Sending::Closed), Err(BrokenPipe::Closed));
    assert_eq!(BrokenPipe::Cancelled.message(), "upload cancelled");
    assert_eq!(BrokenPipe::Closed.message(), "upload closed");
}

fn plain(message: &str) -> Failure {
    Failure::plain(message.to_string())
}

#[test]
fn a_failed_archive_ends_the_body_with_an_error() {
    assert_eq!(end_of_body(&Ok(())), None);
    assert_eq!(
        end_of_body(&Err(Failure::new("reading /x", "gone".to_string()))),
        Some("reading /x: gone".to_string())
    );
}

#[test]
fn a_panicking_producer_is_a_failed_one() {
    assert_eq!(produced(Ok(Ok(()))), Ok(()));
    assert_eq!(produced(Ok(Err(plain("x")))), Err(plain("x")));
    assert_eq!(
        produced(Err("task 3 panicked".to_string())),
        Err(Failure::new("archive producer panicked", "task 3 panicked".to_string()))
    );
}

#[test]
fn cancellation_counts_before_anything_else() {
    assert_eq!(sending(true, true), Sending::Cancelled);
    assert_eq!(sending(true, false), Sending::Cancelled);
    assert_eq!(sending(false, true), Sending::Taken);
    assert_eq!(sending(false, false), Sending::Closed);
}

#[test]
fn cancelled_producers_stop() {
    assert_eq!(FinishStep::Cancel.ended(), Some(FinishStep::Join));
    assert_eq!(FinishStep::Join.ended(), None);
    let cancelled_at = 3;
    let mut made = 0;
    for write in 0..1000 {
        made += 1;
        if written(b"more", sending(write >= cancelled_at, true)).is_err() {
            break;
        }
    }
    assert_eq!(made, cancelled_at + 1);
}

#[test]
fn producers_that_are_cut_off_are_told_from_failed_ones() {
    assert!(matches!(producer_end(Ok(()), false), Produced::Finished));
    assert!(matches!(producer_end(Ok(()), true), Produced::Finished));
    assert!(matches!(
        producer_end(Err(plain("x")), false),
        Produced::Failed(ref failure) if failure == &plain("x")
    ));
    assert!(matches!(
        producer_end(Err(plain("x")), true),
        Produced::CutOff(ref failure) if failure == &plain("x")
    ));
}

#[test]
fn archive_errors_are_reported_whatever_the_server_says() {
    let exchange = PodClient::new("http://pod", "test").init_mounts();
    let cause = "source file became unreadable";
    for answer in [
        Answer::Granted,
        Answer::Rejected(None),
        Answer::Rejected(Some("bad archive".to_string())),
        Answer::Unsent("body failed".to_string()),
    ] {
        let failed = Produced::Failed(plain(cause));
        let error = upload_result(&exchange, answer, failed).unwrap_err().text();
        assert!(error.contains(cause), "{error}");
    }
}

#[test]
fn rejections_are_reported_alone_unless_the_archive_failed() {
    let exchange = PodClient::new("http://pod", "test").init_mounts();
    let rejected = || Answer::Rejected(Some("upload rejected".to_string()));
    for producer in [Produced::Finished, Produced::CutOff(plain("upload cancelled"))] {
        assert_eq!(
            upload_result(&exchange, rejected(), producer),
            Err(plain("POST /init-mounts: upload rejected"))
        );
    }
    assert_eq!(
        upload_result(&exchange, rejected(), Produced::Failed(plain("disk error"))),
        Err(Failure::new("POST /init-mounts: upload rejected", "disk error".to_string()))
    );
}

#[test]
fn uploads_say_all_that_failed() {
    let exchange = PodClient::new("http://pod", "test").init_mounts();
    assert_eq!(upload_result(&exchange, Answer::Granted, Produced::Finished), Ok(()));
    assert_eq!(
        upload_result(&exchange, Answer::Rejected(None), Produced::Finished),
        Err(plain("POST /init-mounts: unknown error"))
    );
    assert_eq!(
        upload_result(
            &exchange,
            Answer::Unsent("refused".to_string()),
            Produced::Failed(Failure::new("stopped", "eio".to_string()))
        ),
        Err(Failure::new(
            "sending request to http://pod/init-mounts",
            "refused: stopped: eio".to_string()
        ))
    );
    for producer in [Produced::Failed(plain("stopped")), Produced::CutOff(plain("stopped"))] {
        assert_eq!(upload_result(&exchange, Answer::Granted, producer), Err(plain("stopped")));
    }
}

#[test]
fn buffers_are_cut_to_what_was_read() {
    assert_eq!(body_chunk(vec![1, 2, 3], 0), None);
    assert_eq!(body_chunk(vec![1, 2, 3], 2), Some(vec![1, 2]));
    assert_eq!(body_chunk(vec![1, 2, 3], 3), Some(vec![1, 2, 3]));
    assert_eq!(body_chunk(vec![1, 2, 3], 9), Some(vec![1, 2, 3]));
}

#[test]
fn archives_arrive_as_made() {
    let data = noise(200_000);
    let mut body = ArchiveBody::new();
    let mut sent = Vec::new();
    for piece in data.chunks(30_000) {
        let (next, chunk) = body.pack(piece).unwrap();
        sent.extend(chunk);
        body = next;
    }
    assert!(!sent.is_empty(), "nothing was sent before the archive was finished");
    assert_ne!(sent, data);
    assert_eq!(ArchiveBody::unpack(&sent), None);
    sent.extend(body.finish().unwrap());
    assert_eq!(gunzip(&sent), data);
    assert_eq!(ArchiveBody::unpack(&sent), Some(data));
}

#[test]
fn archives_are_read_and_sent_piece_by_piece() {
    let data = noise(100_000);
    let mut body = ArchiveBody::new();
    let mut at = 0;
    let mut sent = Vec::new();
    loop {
        let n = (data.len() - at).min(10_000);
        let mut buffer = data[at..at + n].to_vec();
        buffer.resize(CHUNK_BYTES, 0);
        at += n;
        match body.read(buffer, n).unwrap() {
            BodyStep::Send { next, chunk } => {
                assert!(!chunk.is_empty());
                sent.extend(chunk);
                body = next;
            }
            BodyStep::ReadOn(next) => body = next,
            BodyStep::Last(chunk) => {
                sent.extend(chunk);
                break;
            }
        }
    }
    assert_eq!(at, data.len());
    assert_eq!(gunzip(&sent), data);
}

#[test]
fn an_empty_archive_is_a_complete_stream() {
    let last = ArchiveBody::new().finish().unwrap();
    assert_eq!(gunzip(&last), Vec::<u8>::new());
    assert_eq!(&last[..2], [0x1f, 0x8b]);
}

#[test]
fn content_is_read_in_order_whatever_the_chunks() {
    let mut response = BlockingResponse::new();
    assert!(matches!(response.read(4), ReadStep::NeedChunk));
    assert!(matches!(response.read(0), ReadStep::Bytes(ref bytes) if bytes.is_empty()));
    assert!(response.supply(Some(vec![1, 2, 3])));
    assert!(matches!(response.read(2), ReadStep::Bytes(ref bytes) if bytes == &[1, 2]));
    assert!(response.supply(Some(Vec::new())));
    assert!(response.supply(Some(vec![4])));
    assert!(matches!(response.read(9), ReadStep::Bytes(ref bytes) if bytes == &[3, 4]));
    assert!(matches!(response.read(9), ReadStep::NeedChunk));
    assert!(!response.supply(None));
}

#[test]
fn empty_chunks_are_not_sent() {
    assert!(matches!(
        packed_step(Ok((ArchiveBody::new(), Vec::new()))),
        Ok(BodyStep::ReadOn(_))
    ));
    assert!(matches!(
        packed_step(Ok((ArchiveBody::new(), vec![7]))),
        Ok(BodyStep::Send { ref chunk, .. }) if chunk == &[7]
    ));
    assert!(matches!(packed_step(Err("bad".to_string())), Err(ref cause) if cause == "bad"));
    assert!(matches!(last_step(Ok(vec![7])), Ok(BodyStep::Last(ref chunk)) if chunk == &[7]));
    assert!(matches!(last_step(Err("bad".to_string())), Err(ref cause) if cause == "bad"));
}
