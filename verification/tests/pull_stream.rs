use ollama_client::error::ClientError;
use ollama_client::progress::PullProgress;
use ollama_client::pull::{FrameScanner, PullStream, StreamPhase};

fn record(status: &str) -> PullProgress {
    PullProgress { status: status.to_string(), digest: None, total: None, completed: None }
}

fn layer(status: &str, digest: &str, total: u64, completed: u64) -> PullProgress {
    PullProgress {
        status: status.to_string(),
        digest: Some(digest.to_string()),
        total: Some(total),
        completed: Some(completed),
    }
}

fn feed_all(chunks: &[&[u8]]) -> (PullStream, Vec<PullProgress>) {
    let mut stream = PullStream::new();
    let mut delivered = Vec::new();
    for chunk in chunks {
        delivered.extend(stream.feed(chunk));
    }
    (stream, delivered)
}

const THREE: &[u8] = b"{\"status\":\"pulling manifest\"}\n{\"status\":\"downloading\",\"digest\":\"sha256:ab\",\"total\":100,\"completed\":40}\n{\"status\":\"success\"}\n";

fn three_records() -> Vec<PullProgress> {
    vec![record("pulling manifest"), layer("downloading", "sha256:ab", 100, 40), record("success")]
}

#[test]
fn one_chunk_with_one_object() {
    let (stream, delivered) = feed_all(&[b"{\"status\":\"success\"}"]);
    assert_eq!(delivered, vec![record("success")]);
    assert_eq!(stream.phase(), StreamPhase::AwaitingChunk);
    assert_eq!(stream.result(), None);
}

#[test]
fn one_chunk_with_several_objects() {
    let (_, delivered) = feed_all(&[THREE]);
    assert_eq!(delivered, three_records());
}

#[test]
fn objects_back_to_back_without_separator() {
    let (_, delivered) = feed_all(&[b"{\"status\":\"a\"}{\"status\":\"b\"}{\"status\":\"c\"}"]);
    assert_eq!(delivered, vec![record("a"), record("b"), record("c")]);
}

#[test]
fn every_cut_in_two_delivers_the_same_records() {
    for cut in 0..=THREE.len() {
        let (_, delivered) = feed_all(&[&THREE[..cut], &THREE[cut..]]);
        assert_eq!(delivered, three_records(), "cut at {}", cut);
    }
}

#[test]
fn every_cut_in_three_delivers_the_same_records() {
    for first in 0..=THREE.len() {
        for second in first..=THREE.len() {
            let (_, delivered) =
                feed_all(&[&THREE[..first], &THREE[first..second], &THREE[second..]]);
            assert_eq!(delivered, three_records(), "cuts at {} and {}", first, second);
        }
    }
}

#[test]
fn byte_by_byte_delivers_the_same_records() {
    let mut stream = PullStream::new();
    let mut delivered = Vec::new();
    for byte in THREE {
        delivered.extend(stream.feed(&[*byte]));
    }
    assert_eq!(delivered, three_records());
}

#[test]
fn a_record_is_delivered_with_the_chunk_that_completes_it() {
    let mut stream = PullStream::new();
    assert_eq!(stream.feed(b"{\"status\":\"down"), vec![]);
    assert_eq!(stream.feed(b"loading\"}\n{\"sta"), vec![record("downloading")]);
    assert_eq!(stream.feed(b"tus\":\"success\"}"), vec![record("success")]);
    assert_eq!(stream.feed(b"\n"), vec![]);
}

#[test]
fn empty_chunks_change_nothing() {
    let (_, delivered) = feed_all(&[b"", b"{\"status\":", b"", b"\"a\"}", b""]);
    assert_eq!(delivered, vec![record("a")]);
}

#[test]
fn malformed_object_between_two_valid_ones_is_skipped() {
    let (_, delivered) =
        feed_all(&[b"{\"status\":\"first\"}\n{\"status\": }\n{\"status\":\"second\"}\n"]);
    assert_eq!(delivered, vec![record("first"), record("second")]);
}

#[test]
fn object_of_another_shape_is_skipped() {
    let (_, delivered) =
        feed_all(&[b"{\"status\":\"first\"}{\"error\":\"no such model\"}{\"status\":\"second\"}"]);
    assert_eq!(delivered, vec![record("first"), record("second")]);
}

#[test]
fn object_with_a_member_of_the_wrong_type_is_skipped() {
    let (_, delivered) = feed_all(&[
        b"{\"status\":7}{\"status\":\"a\",\"total\":\"many\"}{\"status\":\"b\",\"completed\":-1}{\"status\":\"c\",\"digest\":5}{\"status\":\"d\",\"total\":1.5}{\"status\":\"ok\"}",
    ]);
    assert_eq!(delivered, vec![record("ok")]);
}

#[test]
fn null_members_read_as_absent() {
    let (_, delivered) =
        feed_all(&[b"{\"status\":\"a\",\"digest\":null,\"total\":null,\"completed\":null}"]);
    assert_eq!(delivered, vec![record("a")]);
}

#[test]
fn unknown_members_are_ignored() {
    let (_, delivered) =
        feed_all(&[b"{\"status\":\"a\",\"extra\":{\"deep\":{\"er\":[1,2,{\"x\":\"}\"}]}},\"total\":18446744073709551615}"]);
    assert_eq!(
        delivered,
        vec![PullProgress {
            status: "a".to_string(),
            digest: None,
            total: Some(u64::MAX),
            completed: None
        }]
    );
}

#[test]
fn braces_and_quotes_inside_strings_do_not_count() {
    let (_, delivered) = feed_all(&[
        b"{\"status\":\"a } b\"}{\"status\":\"{{{\"}{\"status\":\"q\\\"}\\\"{\"}{\"status\":\"back\\\\\"}",
    ]);
    assert_eq!(
        delivered,
        vec![record("a } b"), record("{{{"), record("q\"}\"{"), record("back\\")]
    );
}

#[test]
fn bytes_between_objects_are_dropped() {
    let (_, delivered) = feed_all(&[b" \t\r\n{\"status\":\"a\"} , [1] \"x\" }\n{\"status\":\"b\"}  "]);
    assert_eq!(delivered, vec![record("a"), record("b")]);
}

#[test]
fn object_split_inside_a_multibyte_character() {
    let text = "{\"status\":\"t\u{e9}l\u{e9}chargement \u{1f980}\"}".as_bytes();
    for cut in 0..=text.len() {
        let (_, delivered) = feed_all(&[&text[..cut], &text[cut..]]);
        assert_eq!(delivered, vec![record("t\u{e9}l\u{e9}chargement \u{1f980}")]);
    }
}

#[test]
fn end_of_body_is_success_whatever_the_last_record_said() {
    let (mut stream, delivered) = feed_all(&[b"{\"status\":\"error: disk full\"}\n"]);
    assert_eq!(delivered, vec![record("error: disk full")]);
    assert_eq!(stream.finish(), Ok(()));
    assert_eq!(stream.phase(), StreamPhase::StreamEnded);
    assert_eq!(stream.result(), Some(Ok(())));
}

#[test]
fn end_of_body_without_any_record_is_success() {
    let mut stream = PullStream::new();
    assert_eq!(stream.finish(), Ok(()));
}

#[test]
fn unfinished_object_at_the_end_is_dropped() {
    let (mut stream, delivered) = feed_all(&[b"{\"status\":\"a\"}\n{\"status\":\"b"]);
    assert_eq!(delivered, vec![record("a")]);
    assert_eq!(stream.finish(), Ok(()));
}

#[test]
fn failure_after_two_of_five_delivers_two_and_resolves_as_transport_error() {
    let mut stream = PullStream::new();
    let mut delivered = Vec::new();
    delivered.extend(stream.feed(b"{\"status\":\"one\"}\n{\"stat"));
    delivered.extend(stream.feed(b"us\":\"two\"}\n{\"status\":\"thr"));
    let result = stream.fail("connection reset".to_string());
    assert_eq!(delivered, vec![record("one"), record("two")]);
    assert_eq!(result, Err(ClientError::Transport("connection reset".to_string())));
    assert_eq!(stream.phase(), StreamPhase::StreamError);
    assert_eq!(
        stream.result(),
        Some(Err(ClientError::Transport("connection reset".to_string())))
    );
}

#[test]
fn failure_before_the_first_chunk_is_a_transport_error() {
    let mut stream = PullStream::new();
    assert_eq!(
        stream.fail("connection refused".to_string()),
        Err(ClientError::Transport("connection refused".to_string()))
    );
}

#[test]
fn a_failed_stream_stays_failed() {
    let mut stream = PullStream::new();
    let _ = stream.fail("reset".to_string());
    assert_eq!(stream.feed(b"{\"status\":\"late\"}"), vec![]);
    assert_eq!(stream.finish(), Err(ClientError::Transport("reset".to_string())));
    assert_eq!(
        stream.fail("again".to_string()),
        Err(ClientError::Transport("reset".to_string()))
    );
    assert_eq!(stream.phase(), StreamPhase::StreamError);
}

#[test]
fn an_ended_stream_stays_ended() {
    let mut stream = PullStream::new();
    assert_eq!(stream.finish(), Ok(()));
    assert_eq!(stream.feed(b"{\"status\":\"late\"}"), vec![]);
    assert_eq!(stream.fail("reset".to_string()), Ok(()));
    assert_eq!(stream.finish(), Ok(()));
    assert_eq!(stream.phase(), StreamPhase::StreamEnded);
}

#[test]
fn scanner_hands_out_the_bytes_of_each_object() {
    let mut scanner = FrameScanner::new();
    let mut frames = Vec::new();
    for byte in b"x{\"a\":{\"b\":\"}\"}} {}" {
        if let Some(frame) = scanner.push_byte(*byte) {
            frames.push(frame);
        }
    }
    assert_eq!(frames, vec![b"{\"a\":{\"b\":\"}\"}}".to_vec(), b"{}".to_vec()]);
}

#[test]
fn decode_reads_one_frame() {
    assert_eq!(
        PullProgress::decode(b"{\"status\":\"verifying sha256 digest\",\"digest\":\"sha256:00\"}"),
        Some(PullProgress {
            status: "verifying sha256 digest".to_string(),
            digest: Some("sha256:00".to_string()),
            total: None,
            completed: None
        })
    );
    assert_eq!(PullProgress::decode(b"{\"status\":\"a\"} trailing"), None);
    assert_eq!(PullProgress::decode(b"[\"a\", null, 1, 2]"), None);
    assert_eq!(PullProgress::decode(b""), None);
}

#[test]
fn advance_stops_behind_each_record() {
    let chunk = b" {\"status\":\"a\"}\n{\"bad\":1}{\"status\":\"b\"} {\"sta";
    let mut stream = PullStream::new();
    let (at, first) = stream.advance(chunk, 0);
    assert_eq!(first, Some(record("a")));
    assert_eq!(at, 15);
    let (at, second) = stream.advance(chunk, at);
    assert_eq!(second, Some(record("b")));
    assert_eq!(at, 39);
    let (at, third) = stream.advance(chunk, at);
    assert_eq!(third, None);
    assert_eq!(at, chunk.len());
    let (at, none) = stream.advance(chunk, at);
    assert_eq!(none, None);
    assert_eq!(at, chunk.len());
    assert_eq!(stream.feed(b"tus\":\"c\"}"), vec![record("c")]);
}

#[test]
fn advance_on_a_resolved_stream_skips_the_chunk() {
    let mut stream = PullStream::new();
    let _ = stream.finish();
    assert_eq!(stream.advance(b"{\"status\":\"a\"}", 0), (14, None));
    assert_eq!(stream.advance(b"{\"status\":\"a\"}", 5), (14, None));
    assert_eq!(stream.advance(b"{\"status\":\"a\"}", 14), (14, None));
}

#[test]
fn advance_and_feed_deliver_the_same_records() {
    for cut in 0..=THREE.len() {
        let mut stream = PullStream::new();
        let mut delivered = Vec::new();
        for chunk in [&THREE[..cut], &THREE[cut..]] {
            let mut at = 0;
            while at < chunk.len() {
                let (next, progress) = stream.advance(chunk, at);
                assert!(next > at);
                delivered.extend(progress);
                at = next;
            }
        }
        assert_eq!(delivered, three_records());
    }
}

#[test]
fn advance_behind_the_end_reads_nothing() {
    let mut stream = PullStream::new();
    assert_eq!(stream.advance(b"{\"status\":\"a\"}", 15), (14, None));
    assert_eq!(stream.advance(b"", 0), (0, None));
    assert_eq!(stream.advance(b"", 3), (0, None));
    assert_eq!(stream.feed(b"{\"status\":\"a\"}"), vec![record("a")]);
}
