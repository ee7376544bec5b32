use reqwest_wasi::body::{
    read_step, ChunkWriter, ReadOutcome, ReadStep, SinkStep, StreamOutcome,
    WriteReadiness,
};
use reqwest_wasi::error::Kind;

#[test]
fn read_steps_concatenate_chunks() {
    let mut body = Vec::new();
    assert!(matches!(read_step(&mut body, ReadOutcome::Chunk(b"ab".to_vec())), ReadStep::Continue));
    assert!(matches!(read_step(&mut body, ReadOutcome::Chunk(Vec::new())), ReadStep::Continue));
    assert!(matches!(read_step(&mut body, ReadOutcome::Chunk(b"cd".to_vec())), ReadStep::Continue));
    assert!(matches!(read_step(&mut body, ReadOutcome::Closed), ReadStep::Finished));
    assert_eq!(body, b"abcd".to_vec());
}

#[test]
fn failed_read_is_a_request_error() {
    let mut body = b"x".to_vec();
    match read_step(&mut body, ReadOutcome::Failed) {
        ReadStep::Failed(e) => {
            assert_eq!(e.kind(), Kind::Request);
            assert_eq!(e.message(), "input_stream read failed");
        }
        _ => panic!("expected a failure"),
    }
    assert_eq!(body, b"x".to_vec());
}

#[test]
fn sink_writes_in_permitted_pieces_then_flushes() {
    let mut w = ChunkWriter::new(5);
    assert!(matches!(w.next_step(WriteReadiness::Permit(0)), SinkStep::Wait));
    match w.next_step(WriteReadiness::Permit(2)) {
        SinkStep::Write { start, end } => {
            assert_eq!((start, end), (0, 2));
            assert!(w.wrote(end, StreamOutcome::Done).is_none());
        }
        _ => panic!("expected a write"),
    }
    match w.next_step(WriteReadiness::Permit(10)) {
        SinkStep::Write { start, end } => {
            assert_eq!((start, end), (2, 5));
            assert!(w.wrote(end, StreamOutcome::Done).is_none());
        }
        _ => panic!("expected a write"),
    }
    assert_eq!(w.offset(), 5);
    assert!(matches!(w.next_step(WriteReadiness::Permit(1)), SinkStep::Flush));
    assert!(w.flushed(StreamOutcome::Done).is_none());
    assert!(matches!(w.next_step(WriteReadiness::Permit(1)), SinkStep::Complete));
}

#[test]
fn sink_closed_stream() {
    let w = ChunkWriter::new(3);
    assert!(matches!(w.next_step(WriteReadiness::Closed), SinkStep::Fail));
    assert!(matches!(w.next_step(WriteReadiness::Failed), SinkStep::Fail));
    let w = ChunkWriter::new(0);
    assert!(matches!(w.next_step(WriteReadiness::Closed), SinkStep::Complete));
    let mut w = ChunkWriter::new(0);
    assert!(matches!(w.flushed(StreamOutcome::Closed), Some(SinkStep::Complete)));
    let mut w = ChunkWriter::new(0);
    assert!(matches!(w.flushed(StreamOutcome::Failed), Some(SinkStep::Fail)));
}

#[test]
fn sink_failed_write_keeps_offset() {
    let mut w = ChunkWriter::new(4);
    assert!(matches!(w.wrote(3, StreamOutcome::Closed), Some(SinkStep::Fail)));
    assert_eq!(w.offset(), 0);
}

#[test]
fn sink_writes_whole_body_in_small_permits() {
    let body = b"abcdefg".to_vec();
    let mut w = ChunkWriter::new(body.len());
    let mut written = Vec::new();
    let mut flushes = 0;
    let permits = [3u64, 0, 1, 5, 2, 2];
    let mut completed = false;
    for permit in permits {
        match w.next_step(WriteReadiness::Permit(permit)) {
            SinkStep::Write { start, end } => {
                assert!(end > start && (end - start) as u64 <= permit);
                written.extend_from_slice(&body[start..end]);
                assert!(w.wrote(end, StreamOutcome::Done).is_none());
            }
            SinkStep::Flush => {
                flushes += 1;
                assert!(w.flushed(StreamOutcome::Done).is_none());
            }
            SinkStep::Wait => {}
            SinkStep::Complete => {
                completed = true;
                break;
            }
            SinkStep::Fail => panic!("unexpected failure"),
        }
    }
    assert!(completed);
    assert_eq!(written, body);
    assert_eq!(flushes, 1);
}
