use std::cell::RefCell;

use csharpier_ls::backend::{edits_for, Backend, SaveError};
use csharpier_ls::buffer::{BufferError, Buffers, ContentChange, TextPosition, TextRange};
use csharpier_ls::frame::{build_request, decode_frame, FrameDecoder, FrameError, SENTINEL};
use csharpier_ls::pool::{Acquire, ConfigError, ProcessProvider};
use csharpier_ls::session::{
    classify_response, FormatError, FormatterSession, StartupStep, WARMUP_PATH, WARMUP_TEXT,
};

fn whole(text: &str) -> ContentChange {
    ContentChange { range: None, range_length: None, text: text.to_string() }
}

fn ranged(text: &str) -> ContentChange {
    ContentChange {
        range: Some(TextRange {
            start: TextPosition { line: 0, character: 0 },
            end: TextPosition { line: 0, character: 2 },
        }),
        range_length: Some(2),
        text: text.to_string(),
    }
}

/// Drives a fresh session through launch and both warm-ups, answering each
/// warm-up with `reply`.
fn started_session(reply: &str) -> FormatterSession {
    let mut s = FormatterSession::new();
    let (step, req) = s.on_launch(true);
    assert_eq!(step, StartupStep::SendWarmup);
    assert!(req.is_some());
    let (step, req) = s.on_warmup_response(Some(Ok(reply.to_string())));
    assert_eq!(step, StartupStep::SendWarmup);
    assert!(req.is_some());
    let (step, req) = s.on_warmup_response(Some(Ok(reply.to_string())));
    assert_eq!(step, StartupStep::Finished);
    assert!(req.is_none());
    assert!(s.is_ready());
    s
}

#[test]
fn test_format_file() {
    let mut process = started_session("public class ClassName { }\n");
    let input = "public class ClassName { }";
    let request = process.begin_format(input, "Text.cs").unwrap();
    assert_eq!(request, b"Text.cs\x03public class ClassName { }\x03".to_vec());
    let output = process
        .on_format_response(Some(Ok("public class ClassName { }\n".to_string())))
        .expect("Could not format file");
    assert!(output.is_some());
    assert_eq!(output.unwrap(), "public class ClassName { }\n");
}

#[test]
fn create_then_get_buffer() {
    let mut b = Buffers::new();
    assert_eq!(b.get_buffer("/w/a.cs"), None);
    b.create_buffer("/w/a.cs".to_string(), "one".to_string());
    b.create_buffer("/w/b.cs".to_string(), "two".to_string());
    assert_eq!(b.get_buffer("/w/a.cs"), Some("one"));
    assert_eq!(b.get_buffer("/w/b.cs"), Some("two"));
    b.create_buffer("/w/a.cs".to_string(), "three".to_string());
    assert_eq!(b.get_buffer("/w/a.cs"), Some("three"));
    assert_eq!(b.get_buffer("/w/b.cs"), Some("two"));
}

#[test]
fn update_with_whole_document_replaces_text() {
    let mut b = Buffers::new();
    b.create_buffer("/w/a.cs".to_string(), "old".to_string());
    assert_eq!(b.update_buffer("/w/a.cs", &[whole("new text")]), Ok(()));
    assert_eq!(b.get_buffer("/w/a.cs"), Some("new text"));
    assert_eq!(b.update_buffer("/w/n.cs", &[whole("fresh")]), Ok(()));
    assert_eq!(b.get_buffer("/w/n.cs"), Some("fresh"));
}

#[test]
fn update_with_unsupported_changes_fails_and_keeps_text() {
    let mut b = Buffers::new();
    b.create_buffer("/w/a.cs".to_string(), "old".to_string());
    assert_eq!(b.update_buffer("/w/a.cs", &[]), Err(BufferError::UnsupportedChange));
    assert_eq!(
        b.update_buffer("/w/a.cs", &[whole("x"), whole("y")]),
        Err(BufferError::UnsupportedChange)
    );
    assert_eq!(b.update_buffer("/w/a.cs", &[ranged("zz")]), Err(BufferError::UnsupportedChange));
    let length_only = ContentChange { range: None, range_length: Some(3), text: "q".to_string() };
    assert_eq!(b.update_buffer("/w/a.cs", &[length_only]), Err(BufferError::UnsupportedChange));
    assert_eq!(b.get_buffer("/w/a.cs"), Some("old"));
    assert_eq!(BufferError::UnsupportedChange.message(), "could not update buffer");
}

#[test]
fn request_frame_layout() {
    assert_eq!(build_request("/w/a.cs", "class A {}"), b"/w/a.cs\x03class A {}\x03".to_vec());
    assert_eq!(build_request("", ""), vec![SENTINEL, SENTINEL]);
    assert_eq!(build_request("é", "ü"), vec![0xc3, 0xa9, 3, 0xc3, 0xbc, 3]);
}

#[test]
fn request_round_trips_through_decoder() {
    let path = "/home/user/proj/Program.cs";
    let content = "namespace N { class Ü { } }\n";
    let bytes = build_request(path, content);
    let mut d = FrameDecoder::new();
    let frames = d.push(&bytes);
    assert_eq!(frames.len(), 2);
    let fields: Vec<String> = frames.into_iter().map(|f| decode_frame(f).unwrap()).collect();
    assert_eq!(fields, vec![path.to_string(), content.to_string()]);
}

#[test]
fn decoder_reassembles_split_chunks() {
    let mut d = FrameDecoder::new();
    assert!(d.push(b"abc").is_empty());
    assert_eq!(d.push(b"de\x03fg"), vec![b"abcde".to_vec()]);
    assert_eq!(d.push(b"\x03\x03h"), vec![b"fg".to_vec(), Vec::new()]);
    assert!(d.push(b"").is_empty());
    assert_eq!(d.push(b"\x03"), vec![b"h".to_vec()]);
}

#[test]
fn decode_frame_checks_utf8() {
    assert_eq!(decode_frame(vec![0xff, 0x41]), Err(FrameError::InvalidUtf8));
    assert_eq!(decode_frame(vec![0xc3, 0xbc]), Ok("ü".to_string()));
    assert_eq!(decode_frame(Vec::new()), Ok(String::new()));
}

#[test]
fn reformatted_output_is_returned() {
    let out = classify_response(26, Some(Ok("public class ClassName { }\n".to_string())));
    assert_eq!(out, Ok(Some("public class ClassName { }\n".to_string())));
}

#[test]
fn canonical_input_is_unchanged() {
    let input = "public class ClassName { }\n";
    assert_eq!(classify_response(input.len(), Some(Ok(input.to_string()))), Ok(None));
}

#[test]
fn same_length_different_text_counts_as_unchanged() {
    let input = "class A{int x;}";
    let output = "class B{int y;}";
    assert_eq!(input.len(), output.len());
    assert_ne!(input, output);
    assert_eq!(classify_response(input.len(), Some(Ok(output.to_string()))), Ok(None));
}

#[test]
fn empty_output_is_unchanged() {
    assert_eq!(classify_response(10, Some(Ok(String::new()))), Ok(None));
}

#[test]
fn length_is_counted_in_bytes() {
    // "ü" is one character but two bytes.
    assert_eq!(classify_response(1, Some(Ok("ü".to_string()))), Ok(Some("ü".to_string())));
    assert_eq!(classify_response(2, Some(Ok("ü".to_string()))), Ok(None));
}

#[test]
fn missing_or_broken_frames_are_errors() {
    assert_eq!(classify_response(3, None), Err(FormatError::EmptyResponse));
    assert_eq!(
        classify_response(3, Some(Err(FrameError::InvalidUtf8))),
        Err(FormatError::Protocol)
    );
    assert_eq!(FormatError::EmptyResponse.message(), "Could not format content. Empty response");
}

#[test]
fn startup_sends_two_warmups() {
    let mut s = FormatterSession::new();
    let (step, req) = s.on_launch(true);
    assert_eq!(step, StartupStep::SendWarmup);
    let expected = build_request(WARMUP_PATH, WARMUP_TEXT);
    assert_eq!(req, Some(expected.clone()));
    assert_eq!(expected, b"Text.cs\x03public class ClassName { }\x03".to_vec());
    let (step, req) = s.on_warmup_response(Some(Ok(String::new())));
    assert_eq!((step, req), (StartupStep::SendWarmup, Some(expected)));
    assert!(!s.is_ready());
    let (step, req) = s.on_warmup_response(Some(Ok("public class ClassName { }\n".to_string())));
    assert_eq!((step, req), (StartupStep::Finished, None));
    assert!(s.is_ready());
}

#[test]
fn startup_failures_fault_the_process() {
    let mut s = FormatterSession::new();
    assert_eq!(s.on_launch(false), (StartupStep::Failed, None));
    assert!(!s.is_ready());

    let mut s = FormatterSession::new();
    s.on_launch(true);
    assert_eq!(s.on_warmup_response(None), (StartupStep::Failed, None));
    assert_eq!(s.begin_format("x", "/w/a.cs"), Err(FormatError::Faulted));

    let mut s = FormatterSession::new();
    s.on_launch(true);
    s.on_warmup_response(Some(Ok(String::new())));
    assert_eq!(
        s.on_warmup_response(Some(Err(FrameError::InvalidUtf8))),
        (StartupStep::Failed, None)
    );
}

#[test]
fn failed_request_faults_the_process() {
    let mut s = started_session("");
    s.begin_format("abc", "/w/a.cs").unwrap();
    assert_eq!(s.on_format_response(None), Err(FormatError::EmptyResponse));
    assert!(!s.is_ready());
    assert_eq!(s.begin_format("abc", "/w/a.cs"), Err(FormatError::Faulted));

    let mut s = started_session("");
    s.begin_format("abc", "/w/a.cs").unwrap();
    assert_eq!(s.on_write_failed(), FormatError::Io);
    assert_eq!(s.begin_format("abc", "/w/a.cs"), Err(FormatError::Faulted));
}

#[test]
fn ready_process_serves_requests_in_turn() {
    let mut s = started_session("");
    s.begin_format("abc", "/w/a.cs").unwrap();
    assert_eq!(s.on_format_response(Some(Ok("abc".to_string()))), Ok(None));
    assert!(s.is_ready());
    s.begin_format("abc", "/w/a.cs").unwrap();
    assert_eq!(s.on_format_response(Some(Ok("abcd".to_string()))), Ok(Some("abcd".to_string())));
    assert!(s.is_ready());
}

#[test]
fn same_directory_shares_one_process() {
    let mut pool: ProcessProvider<u32> = ProcessProvider::new();
    let first = pool.get_process("/work/proj/A.cs", false);
    assert_eq!(first, Ok(Acquire::Spawn("/work/proj".to_string())));
    let h = pool.register("/work/proj".to_string(), 7);
    assert_eq!(h, 0);
    assert_eq!(pool.get_process("/work/proj/A.cs", false), Ok(Acquire::Existing(0)));
    assert_eq!(pool.get_process("/work/proj/B.cs", false), Ok(Acquire::Existing(0)));
    assert_eq!(*pool.process(0), 7);
    assert_eq!(pool.len(), 1);
}

#[test]
fn other_directory_gets_its_own_process() {
    let mut pool: ProcessProvider<u32> = ProcessProvider::new();
    pool.register("/a".to_string(), 1);
    assert_eq!(pool.get_process("/b/X.cs", false), Ok(Acquire::Spawn("/b".to_string())));
    assert_eq!(pool.register("/b".to_string(), 2), 1);
    assert_eq!(pool.get_process("/a/Y.cs", false), Ok(Acquire::Existing(0)));
    assert_eq!(pool.get_process("/b/Z.cs", false), Ok(Acquire::Existing(1)));
    assert_eq!(*pool.process(1), 2);
}

#[test]
fn unusable_paths_are_config_errors() {
    let pool: ProcessProvider<u32> = ProcessProvider::new();
    assert_eq!(pool.get_process("/work/proj", true), Err(ConfigError::IsDirectory));
    assert_eq!(pool.get_process("/", false), Err(ConfigError::NoDirectory));
    assert_eq!(pool.get_process("", false), Err(ConfigError::NoDirectory));
    assert_eq!(pool.get_process("A.cs", false), Ok(Acquire::Spawn(String::new())));
}

#[test]
fn whole_document_edit() {
    assert!(edits_for(None).is_none());
    let edits = edits_for(Some("new".to_string())).unwrap();
    assert_eq!(edits.len(), 1);
    assert_eq!(edits[0].new_text, "new");
    assert_eq!(edits[0].range.start, TextPosition { line: 0, character: 0 });
    assert_eq!(edits[0].range.end, TextPosition { line: u32::MAX, character: u32::MAX });
}

#[test]
fn backend_open_change_save() {
    let mut b: Backend<u32> = Backend::new();
    let acq = b.did_open("/w/A.cs".to_string(), "class A {}".to_string(), false);
    assert_eq!(acq, Ok(Acquire::Spawn("/w".to_string())));
    assert_eq!(b.register_process("/w".to_string(), 5), 0);
    assert_eq!(b.did_change("/w/A.cs", &[whole("class A { }")]), Ok(()));
    assert_eq!(b.did_change("/w/A.cs", &[]), Err(BufferError::UnsupportedChange));
    assert_eq!(b.buffer("/w/A.cs"), Some("class A { }"));
    assert_eq!(b.will_save("/w/A.cs", false), Ok(("class A { }".to_string(), Acquire::Existing(0))));
    assert_eq!(*b.process(0), 5);
    assert_eq!(b.will_save("/w/B.cs", false), Err(SaveError::UnknownBuffer));
    assert_eq!(b.did_open("/w".to_string(), String::new(), true), Err(ConfigError::IsDirectory));
}

#[test]
fn two_directories_format_back_to_back() {
    let mut b: Backend<RefCell<FormatterSession>> = Backend::new();
    let mut handles = Vec::new();
    for (path, dir) in [("/one/A.cs", "/one"), ("/two/B.cs", "/two")] {
        match b.did_open(path.to_string(), "class X{}".to_string(), false) {
            Ok(Acquire::Spawn(d)) => {
                assert_eq!(d, dir);
                handles.push(b.register_process(d, RefCell::new(started_session(""))));
            }
            other => panic!("unexpected {:?}", other),
        }
    }
    assert_eq!(handles, vec![0, 1]);
    for (path, h) in [("/one/A.cs", 0usize), ("/two/B.cs", 1usize)] {
        let (text, acq) = b.will_save(path, false).unwrap();
        assert_eq!(acq, Acquire::Existing(h));
        let mut session = b.process(h).borrow_mut();
        let req = session.begin_format(&text, path).unwrap();
        assert!(req.ends_with(&[SENTINEL]));
        let out = session.on_format_response(Some(Ok("class X { }\n".to_string()))).unwrap();
        assert_eq!(edits_for(out).unwrap()[0].new_text, "class X { }\n");
    }
}
