use gitscribe_core::stream::{decode_line, read_fragment, Fragment, StreamParser};

const ANSWER: &[u8] =
    b"{\"response\":\"Hello\",\"done\":false}\n{\"response\":\" world\",\"done\":true}\n";

fn run(chunks: &[&[u8]]) -> (Vec<String>, String, bool) {
    let mut parser = StreamParser::new();
    let mut tokens = Vec::new();
    for chunk in chunks {
        tokens.extend(parser.feed(chunk));
    }
    tokens.extend(parser.finish());
    (tokens, parser.text().clone(), parser.is_done())
}

#[test]
fn whole_answer_in_one_chunk() {
    let (tokens, text, done) = run(&[ANSWER]);
    assert_eq!(tokens, vec!["Hello", " world"]);
    assert_eq!(text, "Hello world");
    assert!(done);
}

#[test]
fn answer_cut_inside_its_lines() {
    let (tokens, text, _) = run(&[
        b"{\"response\":\"Hel",
        b"lo\",\"done\":false}\n{\"respo",
        b"nse\":\" world\",\"done\":true}\n",
    ]);
    assert_eq!(tokens, vec!["Hello", " world"]);
    assert_eq!(text, "Hello world");
}

#[test]
fn every_cut_in_two_gives_the_same_answer() {
    for cut in 0..=ANSWER.len() {
        let (tokens, text, done) = run(&[&ANSWER[..cut], &ANSWER[cut..]]);
        assert_eq!(tokens, vec!["Hello", " world"], "cut at {}", cut);
        assert_eq!(text, "Hello world", "cut at {}", cut);
        assert!(done);
    }
}

#[test]
fn every_cut_in_three_gives_the_same_answer() {
    for first in 0..=ANSWER.len() {
        for second in first..=ANSWER.len() {
            let (tokens, text, _) =
                run(&[&ANSWER[..first], &ANSWER[first..second], &ANSWER[second..]]);
            assert_eq!(tokens, vec!["Hello", " world"]);
            assert_eq!(text, "Hello world");
        }
    }
}

#[test]
fn byte_by_byte_gives_the_same_answer() {
    let chunks: Vec<&[u8]> = ANSWER.chunks(1).collect();
    let (tokens, text, _) = run(&chunks);
    assert_eq!(tokens, vec!["Hello", " world"]);
    assert_eq!(text, "Hello world");
}

#[test]
fn no_token_before_its_line_has_ended() {
    let mut parser = StreamParser::new();
    assert_eq!(parser.feed(b"{\"response\":\"Hel"), Vec::<String>::new());
    assert_eq!(parser.text(), "");
    assert_eq!(parser.feed(b"lo\",\"done\":false}"), Vec::<String>::new());
    assert_eq!(parser.feed(b"\n"), vec!["Hello"]);
    assert_eq!(parser.text(), "Hello");
    assert!(!parser.is_done());
}

#[test]
fn a_character_cut_in_two_survives() {
    let answer = "{\"response\":\"h\u{00E9}llo \u{1F600}\"}\n".as_bytes();
    for cut in 0..=answer.len() {
        let (tokens, text, _) = run(&[&answer[..cut], &answer[cut..]]);
        assert_eq!(tokens, vec!["h\u{00E9}llo \u{1F600}"]);
        assert_eq!(text, "h\u{00E9}llo \u{1F600}");
    }
}

#[test]
fn malformed_lines_are_skipped() {
    let (tokens, text, done) =
        run(&[b"{\"response\":\"a\"}\nnot json\n{\"response\":\n\n   \n{\"response\":\"b\"}\n"]);
    assert_eq!(tokens, vec!["a", "b"]);
    assert_eq!(text, "ab");
    assert!(done);
}

#[test]
fn lines_without_a_token_release_none() {
    let mut parser = StreamParser::new();
    assert_eq!(parser.feed(b"{\"done\":false}\n{\"response\":7}\n[1]\n"), Vec::<String>::new());
    assert_eq!(parser.text(), "");
    assert!(!parser.is_done());
}

#[test]
fn the_end_mark_ends_the_answer() {
    let mut parser = StreamParser::new();
    let tokens = parser.feed(b"{\"response\":\"a\",\"done\":true}\n{\"response\":\"b\"}\n");
    assert_eq!(tokens, vec!["a"]);
    assert!(parser.is_done());
    assert_eq!(parser.feed(b"{\"response\":\"c\"}\n"), Vec::<String>::new());
    assert_eq!(parser.finish(), Vec::<String>::new());
    assert_eq!(parser.text(), "a");
}

#[test]
fn an_end_mark_that_is_no_boolean_ends_nothing() {
    let mut parser = StreamParser::new();
    parser.feed(b"{\"response\":\"a\",\"done\":\"true\"}\n{\"done\":1}\n");
    assert!(!parser.is_done());
    assert_eq!(parser.feed(b"{\"response\":\"b\"}\n"), vec!["b"]);
}

#[test]
fn finish_takes_a_last_line_without_line_end() {
    let mut parser = StreamParser::new();
    assert_eq!(parser.feed(b"{\"response\":\"a\"}\n{\"response\":\"b\"}"), vec!["a"]);
    assert!(!parser.is_done());
    assert_eq!(parser.finish(), vec!["b"]);
    assert_eq!(parser.text(), "ab");
    assert!(parser.is_done());
}

#[test]
fn finish_of_an_empty_stream() {
    let mut parser = StreamParser::new();
    assert_eq!(parser.finish(), Vec::<String>::new());
    assert_eq!(parser.text(), "");
    assert!(parser.is_done());
}

#[test]
fn carriage_returns_before_line_ends_do_no_harm() {
    let (tokens, _, _) = run(&[b"{\"response\":\"a\"}\r\n{\"response\":\"b\"}\r\n"]);
    assert_eq!(tokens, vec!["a", "b"]);
}

#[test]
fn accept_appends_and_hands_back() {
    let mut parser = StreamParser::new();
    let token = parser.accept(Fragment { token: Some("ab".to_string()), done: false });
    assert_eq!(token, Some("ab".to_string()));
    assert_eq!(parser.accept(Fragment { token: None, done: false }), None);
    assert_eq!(parser.text(), "ab");
    assert!(!parser.is_done());
    parser.accept(Fragment { token: Some("c".to_string()), done: true });
    assert_eq!(parser.text(), "abc");
    assert!(parser.is_done());
}

#[test]
fn decode_line_reads_token_and_end_mark() {
    assert_eq!(
        decode_line(b"{\"response\":\"x\",\"done\":true}"),
        Some(Fragment { token: Some("x".to_string()), done: true })
    );
    assert_eq!(decode_line(b"{}"), Some(Fragment { token: None, done: false }));
    assert_eq!(decode_line(b"7"), Some(Fragment { token: None, done: false }));
    assert_eq!(decode_line(b""), None);
    assert_eq!(decode_line(b"  \t"), None);
    assert_eq!(decode_line(b"{"), None);
}

#[test]
fn decode_line_replaces_malformed_bytes() {
    assert_eq!(
        decode_line(b"{\"response\":\"a\xFFb\"}"),
        Some(Fragment { token: Some("a\u{FFFD}b".to_string()), done: false })
    );
}

#[test]
fn read_fragment_reads_a_parsed_line() {
    let doc: serde_json::Value =
        serde_json::from_str("{\"response\":\"tok\",\"done\":false,\"model\":\"m\"}").unwrap();
    assert_eq!(read_fragment(&doc), Fragment { token: Some("tok".to_string()), done: false });
    let doc: serde_json::Value = serde_json::from_str("{\"response\":null,\"done\":true}").unwrap();
    assert_eq!(read_fragment(&doc), Fragment { token: None, done: true });
}
