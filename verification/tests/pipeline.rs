use std::cell::Cell;

use subtrans::error::Error;
use subtrans::subtitle::{Subtitle, SubtitleEntry, TimeSpan};
use subtrans::translator::{majority_vote, EchoTranslator, Language, Param, Response, Translator};

fn entry(start: u64, end: u64, line: Option<&str>) -> SubtitleEntry {
    SubtitleEntry { timespan: TimeSpan { start, end }, line: line.map(String::from) }
}

fn doc(entries: Vec<SubtitleEntry>) -> Subtitle {
    Subtitle { entries }
}

#[test]
fn merge_keeps_timespans_and_count() {
    let d = doc(vec![entry(0, 1000, Some("A")), entry(1500, 2500, Some("B"))]);
    let translated = vec![String::from("X"), String::from("Y")];
    let out = d.merge_bilingual(&translated);
    assert_eq!(out.entries.len(), 2);
    assert_eq!(out.entries[0].timespan, TimeSpan { start: 0, end: 1000 });
    assert_eq!(out.entries[1].timespan, TimeSpan { start: 1500, end: 2500 });
}

#[test]
fn merge_formats_bilingual_lines() {
    let d = doc(vec![entry(0, 1000, Some("A"))]);
    let out = d.merge_bilingual(&vec![String::from("B")]);
    assert_eq!(out.entries[0].line.as_deref(), Some("A\nB"));
}

#[test]
fn merge_empty_original_gives_translation_alone() {
    let d = doc(vec![entry(0, 1000, None), entry(1000, 2000, Some(""))]);
    let out = d.merge_bilingual(&vec![String::from("B"), String::from("C")]);
    assert_eq!(out.entries[0].line.as_deref(), Some("B"));
    assert_eq!(out.entries[1].line.as_deref(), Some("C"));
}

#[test]
fn newlines_are_stripped_before_request() {
    assert_eq!(subtrans::strings::strip_newlines("a\nb\nc"), "abc");
    let texts = vec![String::from("a\nb"), String::from("cd")];
    let req = subtrans::subtitle::request_texts(&texts, 0, 2);
    assert_eq!(req, vec![String::from("ab"), String::from("cd")]);
}

#[test]
fn merged_output_keeps_original_newlines() {
    let d = doc(vec![entry(0, 1000, Some("a\nb"))]);
    let (_, bytes) = d.translate(&EchoTranslator, None, Language::EN).unwrap();
    let text = String::from_utf8(bytes).unwrap();
    // The backend saw "ab"; the output keeps the original line break.
    assert_eq!(text, "1\n00:00:00,000 --> 00:00:01,000\na\nb\nab\n\n");
}

#[test]
fn majority_vote_picks_most_frequent() {
    let langs = vec![String::from("X"), String::from("X"), String::from("Y")];
    assert_eq!(majority_vote(&langs), Some(String::from("X")));
    let langs = vec![String::from("Y"), String::from("X"), String::from("X")];
    assert_eq!(majority_vote(&langs), Some(String::from("X")));
}

#[test]
fn majority_vote_tie_goes_to_first_seen() {
    let langs = vec![String::from("B"), String::from("A"), String::from("A"), String::from("B")];
    assert_eq!(majority_vote(&langs), Some(String::from("B")));
    assert_eq!(majority_vote(&Vec::new()), None);
}

struct FailsOnSecondChunk {
    calls: Cell<u32>,
}

impl Translator for FailsOnSecondChunk {
    fn translate(&self, param: Param) -> Result<Response, Error> {
        let call = self.calls.get();
        self.calls.set(call + 1);
        if call >= 1 {
            return Err(Error::TranslateError(String::from("the backend went away")));
        }
        Ok(Response { source_lang: String::from("EN"), texts: param.texts })
    }
}

#[test]
fn failure_on_a_later_chunk_aborts_the_whole_run() {
    let entries: Vec<SubtitleEntry> =
        (0..65).map(|i| entry(i * 1000, i * 1000 + 500, Some("hi"))).collect();
    let d = doc(entries);
    let svc = FailsOnSecondChunk { calls: Cell::new(0) };
    let r = d.translate(&svc, None, Language::EN);
    assert!(matches!(r, Err(Error::TranslateError(_))));
    // Exactly two calls were made: the first chunk succeeded, the second
    // failed, and no third was attempted.
    assert_eq!(svc.calls.get(), 2);
}

struct WrongLengthBackend;

impl Translator for WrongLengthBackend {
    fn translate(&self, _param: Param) -> Result<Response, Error> {
        Ok(Response { source_lang: String::from("EN"), texts: vec![String::from("only one")] })
    }
}

#[test]
fn chunk_end_caps_requests_at_thirty_texts() {
    assert_eq!(subtrans::subtitle::chunk_end(0, 10), 10);
    assert_eq!(subtrans::subtitle::chunk_end(0, 30), 30);
    assert_eq!(subtrans::subtitle::chunk_end(0, 31), 30);
    assert_eq!(subtrans::subtitle::chunk_end(30, 65), 60);
    assert_eq!(subtrans::subtitle::chunk_end(60, 65), 65);
}

#[test]
fn accepting_a_response_checks_the_count() {
    let resp = Response {
        source_lang: String::from("DE"),
        texts: vec![String::from("a"), String::from("b")],
    };
    let (lang, texts) = subtrans::subtitle::accept_response(resp, 2).unwrap();
    assert_eq!(lang, "DE");
    assert_eq!(texts, vec![String::from("a"), String::from("b")]);

    let resp = Response { source_lang: String::from("DE"), texts: vec![String::from("a")] };
    let r = subtrans::subtitle::accept_response(resp, 2);
    assert!(matches!(r, Err(Error::ResponseLengthMismatch { expected: 2, actual: 1 })));
}

#[test]
fn response_length_mismatch_is_an_error() {
    let d = doc(vec![entry(0, 1000, Some("A")), entry(1000, 2000, Some("B"))]);
    let r = d.translate(&WrongLengthBackend, None, Language::EN);
    assert!(matches!(r, Err(Error::ResponseLengthMismatch { expected: 2, actual: 1 })));
}

#[test]
fn round_trip_with_echo_backend() {
    let input = "1\n00:00:01,000 --> 00:00:02,000\nHello\n\n2\n00:00:03,500 --> 00:00:04,750\nWorld\n\n";
    let sub = Subtitle::new(input.as_bytes().to_vec(), Some("srt")).unwrap();
    let (lang, bytes) = sub.translate(&EchoTranslator, None, Language::EN).unwrap();
    assert_eq!(lang, "en");
    let out = Subtitle::from_srt_text(&String::from_utf8(bytes).unwrap()).unwrap();
    assert_eq!(out.entries.len(), 2);
    for (a, b) in sub.entries.iter().zip(out.entries.iter()) {
        assert_eq!(a.timespan, b.timespan);
        let orig = a.line.as_deref().unwrap();
        assert_eq!(b.line.as_deref().unwrap(), format!("{}\n{}", orig, orig));
    }
}

#[test]
fn chunking_is_invisible_in_the_merged_output() {
    // Thirty-one texts cross the chunk boundary; with a per-text backend the
    // output reads as if all texts had been submitted at once.
    let entries: Vec<SubtitleEntry> =
        (0..31u64).map(|i| entry(i * 1000, i * 1000 + 500, Some("line"))).collect();
    let d = doc(entries);
    let (_, bytes) = d.translate(&EchoTranslator, None, Language::EN).unwrap();
    let out = Subtitle::from_srt_text(&String::from_utf8(bytes).unwrap()).unwrap();
    assert_eq!(out.entries.len(), 31);
    for e in &out.entries {
        assert_eq!(e.line.as_deref(), Some("line\nline"));
    }
}

#[test]
fn explicit_source_language_wins_over_detection() {
    let d = doc(vec![entry(0, 1000, Some("Bonjour"))]);
    let (lang, _) = d.translate(&EchoTranslator, Some(Language::FR), Language::EnGb).unwrap();
    assert_eq!(lang, "fr");
}

#[test]
fn empty_document_translates_to_empty_output() {
    let d = doc(Vec::new());
    let (lang, bytes) = d.translate(&EchoTranslator, None, Language::DE).unwrap();
    // No chunk was ever sent, so no detected language was reported.
    assert_eq!(lang, "en");
    assert!(bytes.is_empty());
}
